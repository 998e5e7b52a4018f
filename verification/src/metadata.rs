//! The canonical runtime-metadata model and the normalization layer that
//! builds it from a raw dialect tree (the per-version wire formats all
//! normalize into this one shape).

use vstd::prelude::*;
use crate::error::Error;
use crate::event_arg::EventArg;
use crate::event_arg::arg_like;
use crate::event_arg::parse_ok;
use crate::event_arg::parses_to;
use crate::registry::assoc_has;
use crate::registry::assoc_get;
use crate::registry::assoc_find;
use crate::scale::Encoded;

verus! {

/// A lookup miss or shape mismatch while querying the canonical model.
#[derive(Debug, PartialEq, Eq)]
pub enum MetadataError {
    ModuleNotFound(String),
    CallNotFound(&'static str),
    EventNotFound(u8),
    StorageNotFound(&'static str),
    StorageTypeError,
    /// A map entry's encoded default failed to decode under the entry's
    /// declared value type; raised by the caller that performs that
    /// decode.
    MapValueTypeError,
}

/// Governs the default-value semantics of a missing storage key.
#[derive(Debug, Clone, Copy, PartialEq, Eq)]
pub enum StorageEntryModifier {
    Optional,
    DefaultValue,
}

/// The keyed hash function chosen per storage entry.
#[derive(Debug, Clone, Copy, PartialEq, Eq)]
pub enum StorageHasher {
    Blake2_128,
    Blake2_256,
    Blake2_128Concat,
    Twox128,
    Twox256,
    Twox64Concat,
}

/// The shape of a storage entry: a plain value, a map, or a double map.
#[derive(Debug, PartialEq, Eq)]
pub enum StorageEntryType {
    Plain(String),
    Mapped { hasher: StorageHasher, key: String, value: String, is_linked: bool },
    DoubleMapped {
        hasher: StorageHasher,
        key1: String,
        key2: String,
        value: String,
        key2_hasher: StorageHasher,
    },
}

/// One storage entry of the canonical model.
#[derive(Debug, PartialEq, Eq)]
pub struct StorageMetadata {
    /// The prefix used to derive this entry's storage keys.
    pub prefix: String,
    pub modifier: StorageEntryModifier,
    pub ty: StorageEntryType,
    /// The SCALE-encoded default value, copied byte for byte.
    pub default: Vec<u8>,
    pub documentation: Vec<String>,
}

/// One event a module declares: its name and its argument types.
#[derive(Debug, PartialEq, Eq)]
pub struct ModuleEventMetadata {
    pub name: String,
    pub arguments: Vec<EventArg>,
}

impl ModuleEventMetadata {
    /// The argument types of this event, in declaration order.
    pub fn arguments(&self) -> (r: Vec<EventArg>)
        ensures
            r@.len() == self.arguments@.len(),
            forall|i: int|
                0 <= i < r@.len() ==> arg_like(#[trigger] self.arguments@[i], r@[i]),
    {
        let mut r: Vec<EventArg> = Vec::new();
        let mut i: usize = 0;
        while i < self.arguments.len()
            invariant
                i <= self.arguments@.len(),
                r@.len() == i,
                forall|k: int|
                    0 <= k < i ==> arg_like(#[trigger] self.arguments@[k], r@[k]),
            decreases self.arguments@.len() - i,
        {
            r.push(self.arguments[i].duplicate());
            i = i + 1;
        }
        r
    }
}

/// Does the list hold the byte key?
pub open spec fn assoc_u8_has<V>(s: Seq<(u8, V)>, k: u8) -> bool {
    exists|i: int| 0 <= i < s.len() && (#[trigger] s[i]).0 == k
}

/// The value under the first occurrence of the byte key.
pub open spec fn assoc_u8_get<V>(s: Seq<(u8, V)>, k: u8) -> V
    decreases s.len(),
{
    if s.len() == 0 {
        arbitrary()
    } else if s[0].0 == k {
        s[0].1
    } else {
        assoc_u8_get(s.drop_first(), k)
    }
}

proof fn lemma_assoc_u8_first<V>(s: Seq<(u8, V)>, k: u8, i: int)
    requires
        0 <= i < s.len(),
        s[i].0 == k,
        forall|j: int| 0 <= j < i ==> (#[trigger] s[j]).0 != k,
    ensures
        assoc_u8_has(s, k),
        assoc_u8_get(s, k) == s[i].1,
    decreases i,
{
    if i > 0 {
        let t = s.drop_first();
        assert(forall|j: int| 0 <= j < i - 1 ==> (#[trigger] t[j]).0 != k);
        assert(t[i - 1] == s[i]);
        lemma_assoc_u8_first(t, k, i - 1);
    }
}

fn assoc_u8_find<'a, V>(entries: &'a Vec<(u8, V)>, key: u8) -> (r: Option<&'a V>)
    ensures
        match r {
            Some(v) => assoc_u8_has(entries@, key) && *v == assoc_u8_get(entries@, key),
            None => !assoc_u8_has(entries@, key),
        },
{
    let mut i: usize = 0;
    while i < entries.len()
        invariant
            i <= entries@.len(),
            forall|j: int| 0 <= j < i ==> (#[trigger] entries@[j]).0 != key,
        decreases entries@.len() - i,
    {
        if entries[i].0 == key {
            proof {
                lemma_assoc_u8_first(entries@, key, i as int);
            }
            return Some(&entries[i].1);
        }
        i = i + 1;
    }
    None
}

/// One module of the canonical model: its runtime-assigned index, its
/// storage entries, its calls with their encoded selectors, and its
/// events keyed by event index.
#[derive(Debug, PartialEq, Eq)]
pub struct ModuleMetadata {
    /// Assigned by the runtime; the first byte of every encoded call
    /// dispatched into this module.
    pub index: u8,
    pub name: String,
    pub storage: Vec<(String, StorageMetadata)>,
    /// Call name to the call's leading encoded byte, in declaration
    /// order: the byte is the call's position in this list.
    pub calls: Vec<(String, Vec<u8>)>,
    /// Event index (assigned by declaration order) to the event.
    pub events: Vec<(u8, ModuleEventMetadata)>,
}

impl ModuleMetadata {
    /// The module's name.
    pub fn name(&self) -> (r: &str)
        ensures
            r@ == self.name@,
    {
        self.name.as_str()
    }

    /// The SCALE-encoded dispatch payload of a call: the module index,
    /// the call's selector byte, then the already-encoded parameters.
    pub fn call(&self, function: &'static str, params: &Encoded) -> (r: Result<
        Encoded,
        MetadataError,
    >)
        ensures
            assoc_has(self.calls@, function@) ==> (r matches Ok(e) && e.0@ == seq![self.index]
                + assoc_get(self.calls@, function@)@ + params.0@),
            !assoc_has(self.calls@, function@) ==> (r matches Err(e) && (e matches
                MetadataError::CallNotFound(f) && f@ == function@)),
    {
        let fn_bytes = match assoc_find(&self.calls, function) {
            Some(b) => b,
            None => {
                return Err(MetadataError::CallNotFound(function));
            },
        };
        let mut bytes: Vec<u8> = Vec::new();
        bytes.push(self.index);
        let mut i: usize = 0;
        while i < fn_bytes.len()
            invariant
                i <= fn_bytes@.len(),
                bytes@ =~= seq![self.index] + fn_bytes@.subrange(0, i as int),
            decreases fn_bytes@.len() - i,
        {
            bytes.push(fn_bytes[i]);
            i = i + 1;
        }
        let mut j: usize = 0;
        while j < params.0.len()
            invariant
                j <= params.0@.len(),
                bytes@ =~= seq![self.index] + fn_bytes@ + params.0@.subrange(0, j as int),
                fn_bytes@ == assoc_get(self.calls@, function@)@,
            decreases params.0@.len() - j,
        {
            bytes.push(params.0[j]);
            j = j + 1;
        }
        proof {
            assert(bytes@ =~= seq![self.index] + assoc_get(self.calls@, function@)@ + params.0@);
        }
        Ok(Encoded(bytes))
    }

    /// A storage entry by its name.
    pub fn storage(&self, key: &'static str) -> (r: Result<&StorageMetadata, MetadataError>)
        ensures
            match r {
                Ok(m) => assoc_has(self.storage@, key@) && *m == assoc_get(self.storage@, key@),
                Err(e) => !assoc_has(self.storage@, key@) && (e matches
                    MetadataError::StorageNotFound(k) && k@ == key@),
            },
    {
        match assoc_find(&self.storage, key) {
            Some(m) => Ok(m),
            None => Err(MetadataError::StorageNotFound(key)),
        }
    }

    /// All events of this module, keyed by event index.
    pub fn events(&self) -> (r: &Vec<(u8, ModuleEventMetadata)>)
        ensures
            *r == self.events,
    {
        &self.events
    }

    /// All calls of this module with their encoded selectors.
    pub fn calls(&self) -> (r: &Vec<(String, Vec<u8>)>)
        ensures
            *r == self.calls,
    {
        &self.calls
    }

    /// All storage entries of this module.
    pub fn storage_keys(&self) -> (r: &Vec<(String, StorageMetadata)>)
        ensures
            *r == self.storage,
    {
        &self.storage
    }

    /// An event by its index in the module.
    pub fn event(&self, index: u8) -> (r: Result<&ModuleEventMetadata, MetadataError>)
        ensures
            match r {
                Ok(e) => assoc_u8_has(self.events@, index) && *e == assoc_u8_get(
                    self.events@,
                    index,
                ),
                Err(e) => !assoc_u8_has(self.events@, index) && e == MetadataError::EventNotFound(
                    index,
                ),
            },
    {
        match assoc_u8_find(&self.events, index) {
            Some(e) => Ok(e),
            None => Err(MetadataError::EventNotFound(index)),
        }
    }
}

/// The canonical metadata: modules by name, plus the auxiliary map from
/// event index to the name of the module that emits it.
#[derive(Debug, PartialEq, Eq)]
pub struct Metadata {
    pub modules: Vec<(String, ModuleMetadata)>,
    pub modules_by_event_index: Vec<(u8, String)>,
}

impl Metadata {
    /// All modules, keyed by name.
    pub fn modules(&self) -> (r: &Vec<(String, ModuleMetadata)>)
        ensures
            *r == self.modules,
    {
        &self.modules
    }

    /// A module by its name.
    pub fn module(&self, name: &str) -> (r: Result<&ModuleMetadata, MetadataError>)
        ensures
            match r {
                Ok(m) => assoc_has(self.modules@, name@) && *m == assoc_get(self.modules@, name@),
                Err(e) => !assoc_has(self.modules@, name@) && (e matches
                    MetadataError::ModuleNotFound(n) && n@ == name@),
            },
    {
        match assoc_find(&self.modules, name) {
            Some(m) => Ok(m),
            None => Err(MetadataError::ModuleNotFound(name.to_owned())),
        }
    }

    /// Whether a module of that name exists.
    pub fn module_exists(&self, name: &str) -> (r: bool)
        ensures
            r == assoc_has(self.modules@, name@),
    {
        match assoc_find(&self.modules, name) {
            Some(_) => true,
            None => false,
        }
    }

    /// The name of the module that emits the event with this index.
    pub fn module_name(&self, module_index: u8) -> (r: Result<String, MetadataError>)
        ensures
            match r {
                Ok(n) => assoc_u8_has(self.modules_by_event_index@, module_index) && n@
                    == assoc_u8_get(self.modules_by_event_index@, module_index)@,
                Err(e) => !assoc_u8_has(self.modules_by_event_index@, module_index) && e
                    == MetadataError::EventNotFound(module_index),
            },
    {
        match assoc_u8_find(&self.modules_by_event_index, module_index) {
            Some(n) => Ok(n.clone()),
            None => Err(MetadataError::EventNotFound(module_index)),
        }
    }
}


/// One event of a raw dialect tree: its name and its argument strings,
/// still unparsed.
#[derive(Debug, PartialEq, Eq)]
pub struct RawEvent {
    pub name: String,
    pub arguments: Vec<String>,
}

/// One storage entry of a raw dialect tree.
#[derive(Debug, PartialEq, Eq)]
pub struct RawStorageEntry {
    pub name: String,
    pub prefix: String,
    pub modifier: StorageEntryModifier,
    pub ty: StorageEntryType,
    pub default: Vec<u8>,
    pub documentation: Vec<String>,
}

/// One module of a raw dialect tree, with the dialect's explicit module
/// index (meaningful from version 8 onward).
#[derive(Debug, PartialEq, Eq)]
pub struct RawModule {
    pub name: String,
    pub index: u8,
    pub storage: Vec<RawStorageEntry>,
    pub calls: Vec<String>,
    pub events: Vec<RawEvent>,
}

/// A raw dialect tree: the version byte it was decoded under and its
/// modules in declaration order.
#[derive(Debug, PartialEq, Eq)]
pub struct RawMetadata {
    pub version: u8,
    pub modules: Vec<RawModule>,
}

/// The raw tree fits the canonical model: module names are unique (the
/// model maps modules by name), and module positions, call selectors and
/// event indices all fit the one byte that stores them.
pub open spec fn raw_wf(raw: RawMetadata) -> bool {
    &&& 7 <= raw.version <= 11
    &&& raw.modules@.len() <= 256
    &&& forall|i: int|
        0 <= i < raw.modules@.len() ==> (#[trigger] raw.modules@[i]).calls@.len() <= 256
            && raw.modules@[i].events@.len() <= 256
    &&& forall|i: int, j: int|
        0 <= i < j < raw.modules@.len() ==> (#[trigger] raw.modules@[i]).name@ != (
        #[trigger] raw.modules@[j]).name@
}

/// The index the canonical model assigns to the module at position `i`:
/// the position itself under version 7, the dialect's explicit index
/// from version 8 onward.
pub open spec fn spec_module_index(version: u8, mods: Seq<RawModule>, i: int) -> u8 {
    if version == 7 {
        i as u8
    } else {
        mods[i].index
    }
}

/// Every argument string of the event parses under the grammar.
pub open spec fn event_args_parse(e: RawEvent) -> bool {
    forall|k: int| 0 <= k < e.arguments@.len() ==> parse_ok((#[trigger] e.arguments@[k])@)
}

/// Every argument string of every event of the module parses.
pub open spec fn module_events_parse(m: RawModule) -> bool {
    forall|j: int| 0 <= j < m.events@.len() ==> event_args_parse(#[trigger] m.events@[j])
}

/// Every argument string in the whole tree parses.
pub open spec fn all_event_args_parse(mods: Seq<RawModule>) -> bool {
    forall|i: int| 0 <= i < mods.len() ==> module_events_parse(#[trigger] mods[i])
}

/// The positions, in declaration order, of the modules that declare at
/// least one event: these receive the successive event indices.
pub open spec fn event_module_positions(mods: Seq<RawModule>) -> Seq<int>
    decreases mods.len(),
{
    if mods.len() == 0 {
        Seq::empty()
    } else if mods.last().events@.len() > 0 {
        event_module_positions(mods.drop_last()) + seq![mods.len() - 1]
    } else {
        event_module_positions(mods.drop_last())
    }
}

/// The positions of event-declaring modules are in range, point at
/// modules with events, and are strictly increasing.
pub proof fn lemma_event_positions(mods: Seq<RawModule>)
    ensures
        forall|k: int|
            0 <= k < event_module_positions(mods).len() ==> 0 <= #[trigger] event_module_positions(
                mods,
            )[k] < mods.len() && mods[event_module_positions(mods)[k]].events@.len() > 0,
        forall|k1: int, k2: int|
            0 <= k1 < k2 < event_module_positions(mods).len() ==> event_module_positions(mods)[k1]
                < event_module_positions(mods)[k2],
    decreases mods.len(),
{
    if mods.len() > 0 {
        lemma_event_positions(mods.drop_last());
        assert(forall|k: int|
            0 <= k < event_module_positions(mods.drop_last()).len()
                ==> mods[#[trigger] event_module_positions(mods.drop_last())[k]]
                == mods.drop_last()[event_module_positions(mods.drop_last())[k]]);
    }
}

/// A normalized event: the raw name kept, each argument string parsed.
pub open spec fn event_normalized(r: RawEvent, m: ModuleEventMetadata) -> bool {
    &&& m.name == r.name
    &&& m.arguments@.len() == r.arguments@.len()
    &&& forall|k: int|
        0 <= k < r.arguments@.len() ==> parses_to(
            (#[trigger] r.arguments@[k])@,
            m.arguments@[k],
        )
}

/// A normalized storage entry: every field carried over unchanged.
pub open spec fn storage_normalized(r: RawStorageEntry, e: (String, StorageMetadata)) -> bool {
    &&& e.0 == r.name
    &&& e.1.prefix == r.prefix
    &&& e.1.modifier == r.modifier
    &&& e.1.ty == r.ty
    &&& e.1.default == r.default
    &&& e.1.documentation == r.documentation
}

/// A normalized module: name and storage carried over, each call mapped
/// to its single selector byte (its position in declaration order), each
/// event keyed by declaration order and its argument strings parsed.
pub open spec fn module_normalized(
    version: u8,
    mods: Seq<RawModule>,
    i: int,
    m: ModuleMetadata,
) -> bool {
    &&& m.name == mods[i].name
    &&& m.index == spec_module_index(version, mods, i)
    &&& m.calls@.len() == mods[i].calls@.len()
    &&& forall|j: int|
        0 <= j < mods[i].calls@.len() ==> (#[trigger] m.calls@[j]).0 == mods[i].calls@[j]
            && m.calls@[j].1@ == seq![j as u8]
    &&& m.storage@.len() == mods[i].storage@.len()
    &&& forall|j: int|
        0 <= j < mods[i].storage@.len() ==> storage_normalized(
            mods[i].storage@[j],
            #[trigger] m.storage@[j],
        )
    &&& m.events@.len() == mods[i].events@.len()
    &&& forall|j: int|
        0 <= j < mods[i].events@.len() ==> (#[trigger] m.events@[j]).0 == j as u8
            && event_normalized(mods[i].events@[j], m.events@[j].1)
}

/// A correct event-index map: the `e`-th entry names the `e`-th
/// event-declaring module and carries event index `e`.
pub open spec fn event_index_map_ok(mods: Seq<RawModule>, mbei: Seq<(u8, String)>) -> bool {
    &&& mbei.len() == event_module_positions(mods).len()
    &&& forall|e: int|
        0 <= e < mbei.len() ==> (#[trigger] mbei[e]).0 == e as u8 && mbei[e].1
            == mods[event_module_positions(mods)[e]].name
}

fn normalize_calls(calls: Vec<String>) -> (r: Vec<(String, Vec<u8>)>)
    requires
        calls@.len() <= 256,
    ensures
        r@.len() == calls@.len(),
        forall|j: int|
            0 <= j < calls@.len() ==> (#[trigger] r@[j]).0 == calls@[j] && r@[j].1@ == seq![
                j as u8,
            ],
{
    let ghost orig = calls@;
    let mut rest = calls;
    let mut r: Vec<(String, Vec<u8>)> = Vec::new();
    while rest.len() > 0
        invariant
            orig.len() <= 256,
            r@.len() + rest@.len() == orig.len(),
            rest@ =~= orig.subrange(r@.len() as int, orig.len() as int),
            forall|j: int|
                0 <= j < r@.len() ==> (#[trigger] r@[j]).0 == orig[j] && r@[j].1@ == seq![
                    j as u8,
                ],
        decreases rest@.len(),
    {
        let name = rest.remove(0);
        let mut sel: Vec<u8> = Vec::new();
        sel.push(r.len() as u8);
        r.push((name, sel));
    }
    r
}

fn normalize_storage(entries: Vec<RawStorageEntry>) -> (r: Vec<(String, StorageMetadata)>)
    ensures
        r@.len() == entries@.len(),
        forall|j: int|
            0 <= j < entries@.len() ==> storage_normalized(entries@[j], #[trigger] r@[j]),
{
    let ghost orig = entries@;
    let mut rest = entries;
    let mut r: Vec<(String, StorageMetadata)> = Vec::new();
    while rest.len() > 0
        invariant
            r@.len() + rest@.len() == orig.len(),
            rest@ =~= orig.subrange(r@.len() as int, orig.len() as int),
            forall|j: int|
                0 <= j < r@.len() ==> storage_normalized(orig[j], #[trigger] r@[j]),
        decreases rest@.len(),
    {
        let e = rest.remove(0);
        let RawStorageEntry { name, prefix, modifier, ty, default, documentation } = e;
        r.push((name, StorageMetadata { prefix, modifier, ty, default, documentation }));
    }
    r
}

fn normalize_events(events: Vec<RawEvent>) -> (r: Result<Vec<(u8, ModuleEventMetadata)>, Error>)
    requires
        events@.len() <= 256,
    ensures
        r is Ok <==> (forall|j: int|
            0 <= j < events@.len() ==> event_args_parse(#[trigger] events@[j])),
        r matches Ok(v) ==> v@.len() == events@.len() && (forall|j: int|
            0 <= j < events@.len() ==> (#[trigger] v@[j]).0 == j as u8 && event_normalized(
                events@[j],
                v@[j].1,
            )),
        r matches Err(e) ==> e matches Error::InvalidEventArg(_, _),
{
    let ghost orig = events@;
    let mut rest = events;
    let mut r: Vec<(u8, ModuleEventMetadata)> = Vec::new();
    while rest.len() > 0
        invariant
            orig == events@,
            orig.len() <= 256,
            r@.len() + rest@.len() == orig.len(),
            rest@ =~= orig.subrange(r@.len() as int, orig.len() as int),
            forall|j: int|
                0 <= j < r@.len() ==> (#[trigger] r@[j]).0 == j as u8 && event_normalized(
                    orig[j],
                    r@[j].1,
                ),
            forall|j: int| 0 <= j < r@.len() ==> event_args_parse(#[trigger] orig[j]),
        decreases rest@.len(),
    {
        let ev = rest.remove(0);
        let ghost evg = ev;
        let ghost pos = r@.len() as int;
        let ghost rargs = ev.arguments@;
        let mut args_in = ev.arguments;
        let mut args: Vec<EventArg> = Vec::new();
        while args_in.len() > 0
            invariant
                orig == events@,
                args@.len() + args_in@.len() == rargs.len(),
                args_in@ =~= rargs.subrange(args@.len() as int, rargs.len() as int),
                forall|k: int|
                    0 <= k < args@.len() ==> parses_to((#[trigger] rargs[k])@, args@[k]),
                forall|k: int| 0 <= k < args@.len() ==> parse_ok((#[trigger] rargs[k])@),
                evg.arguments@ == rargs,
                0 <= pos < orig.len(),
                orig[pos] == evg,
            decreases args_in@.len(),
        {
            let s = args_in.remove(0);
            match EventArg::from_str(s.as_str()) {
                Ok(a) => {
                    args.push(a);
                },
                Err(e) => {
                    proof {
                        assert(!parse_ok(rargs[args@.len() as int]@));
                        assert(!event_args_parse(orig[pos]));
                    }
                    return Err(e);
                },
            }
        }
        let k = r.len() as u8;
        r.push((k, ModuleEventMetadata { name: ev.name, arguments: args }));
    }
    Ok(r)
}

impl Metadata {
    /// Normalizes a raw dialect tree into the canonical model.  The
    /// module index is positional under version 7 and explicit from
    /// version 8 onward; each call is mapped to its one-byte selector,
    /// its position in declaration order; event argument strings are
    /// parsed under the event-argument grammar; the event-index map is
    /// rebuilt by numbering the event-declaring modules in declaration
    /// order.  Normalization succeeds exactly when every event argument
    /// string parses.
    pub fn from_raw(raw: RawMetadata) -> (r: Result<Metadata, Error>)
        requires
            raw_wf(raw),
        ensures
            r is Ok <==> all_event_args_parse(raw.modules@),
            r matches Ok(md) ==> md.modules@.len() == raw.modules@.len() && (forall|i: int|
                0 <= i < raw.modules@.len() ==> (#[trigger] md.modules@[i]).0
                    == raw.modules@[i].name && module_normalized(
                    raw.version,
                    raw.modules@,
                    i,
                    md.modules@[i].1,
                )) && event_index_map_ok(raw.modules@, md.modules_by_event_index@),
            r matches Err(e) ==> e matches Error::InvalidEventArg(_, _),
    {
        let version = raw.version;
        let ghost rmods = raw.modules@;
        let mut mods_in = raw.modules;
        let mut modules: Vec<(String, ModuleMetadata)> = Vec::new();
        let mut mbei: Vec<(u8, String)> = Vec::new();
        while mods_in.len() > 0
            invariant
                rmods == raw.modules@,
                version == raw.version,
                7 <= version <= 11,
                rmods.len() <= 256,
                forall|i: int|
                    0 <= i < rmods.len() ==> (#[trigger] rmods[i]).calls@.len() <= 256
                        && rmods[i].events@.len() <= 256,
                mbei@.len() <= modules@.len(),
                modules@.len() + mods_in@.len() == rmods.len(),
                mods_in@ =~= rmods.subrange(modules@.len() as int, rmods.len() as int),
                forall|i: int|
                    0 <= i < modules@.len() ==> (#[trigger] modules@[i]).0 == rmods[i].name
                        && module_normalized(version, rmods, i, modules@[i].1),
                forall|i: int| 0 <= i < modules@.len() ==> module_events_parse(#[trigger] rmods[i]),
                event_index_map_ok(rmods.subrange(0, modules@.len() as int), mbei@),
            decreases mods_in@.len(),
        {
            let pos = modules.len();
            let ghost posg = pos as int;
            let rm = mods_in.remove(0);
            let ghost rmg = rm;
            let midx: u8 = if version == 7 {
                pos as u8
            } else {
                rm.index
            };
            let name_key = rm.name.clone();
            let name_for_events = rm.name.clone();
            let calls = normalize_calls(rm.calls);
            let storage = normalize_storage(rm.storage);
            let events = match normalize_events(rm.events) {
                Ok(v) => v,
                Err(e) => {
                    proof {
                        assert(!module_events_parse(rmods[posg]));
                    }
                    return Err(e);
                },
            };
            let has_events = events.len() > 0;
            let mm = ModuleMetadata { index: midx, name: rm.name, storage, calls, events };
            modules.push((name_key, mm));
            proof {
                assert(rmods[posg] == rmg);
            }
            if has_events {
                let next = mbei.len() as u8;
                mbei.push((next, name_for_events));
            }
            proof {
                let pre = rmods.subrange(0, posg);
                let cur = rmods.subrange(0, posg + 1);
                assert(cur.drop_last() =~= pre);
                assert(cur.last() == rmods[posg]);
                if rmods[posg].events@.len() > 0 {
                    assert(event_module_positions(cur) =~= event_module_positions(pre) + seq![
                        posg,
                    ]);
                } else {
                    assert(event_module_positions(cur) =~= event_module_positions(pre));
                }
                assert(forall|e: int|
                    0 <= e < event_module_positions(pre).len()
                        ==> cur[#[trigger] event_module_positions(pre)[e]]
                        == pre[event_module_positions(pre)[e]]) by {
                    lemma_event_positions(pre);
                }
                assert(event_index_map_ok(cur, mbei@));
            }
        }
        proof {
            assert(rmods.subrange(0, rmods.len() as int) =~= rmods);
        }
        Ok(Metadata { modules, modules_by_event_index: mbei })
    }
}

/// Re-indexing modules by event index yields strictly monotonic module
/// indices: successive event indices belong to modules later in
/// declaration order, and the module index rises with declaration order
/// (positionally under version 7; by the dialect's explicit, strictly
/// increasing indices otherwise).
pub proof fn lemma_event_index_monotonic(version: u8, mods: Seq<RawModule>, e1: int, e2: int)
    requires
        7 <= version <= 11,
        0 <= e1 < e2 < event_module_positions(mods).len(),
        version == 7 ==> mods.len() <= 256,
        version != 7 ==> (forall|i: int, j: int|
            0 <= i < j < mods.len() ==> (#[trigger] mods[i]).index < (#[trigger] mods[j]).index),
    ensures
        spec_module_index(version, mods, event_module_positions(mods)[e1]) < spec_module_index(
            version,
            mods,
            event_module_positions(mods)[e2],
        ),
{
    lemma_event_positions(mods);
    let p1 = event_module_positions(mods)[e1];
    let p2 = event_module_positions(mods)[e2];
    assert(p1 < p2);
    if version == 7 {
        assert(0 <= p1 < p2 < 256);
    }
}


/// Lines of the form `<prefix><name>\n`, one per entry, in order.
pub open spec fn name_lines<V>(prefix: Seq<char>, items: Seq<(String, V)>) -> Seq<char>
    decreases items.len(),
{
    if items.len() == 0 {
        Seq::empty()
    } else {
        prefix + items[0].0@ + seq!['\n'] + name_lines(prefix, items.drop_first())
    }
}

/// Lines of the form `<prefix><event name>\n`, one per event, in order.
pub open spec fn event_lines(prefix: Seq<char>, items: Seq<(u8, ModuleEventMetadata)>) -> Seq<
    char,
>
    decreases items.len(),
{
    if items.len() == 0 {
        Seq::empty()
    } else {
        prefix + items[0].1.name@ + seq!['\n'] + event_lines(prefix, items.drop_first())
    }
}

pub proof fn lemma_name_lines_snoc<V>(prefix: Seq<char>, xs: Seq<(String, V)>, y: (String, V))
    ensures
        name_lines(prefix, xs.push(y)) =~= name_lines(prefix, xs) + prefix + y.0@ + seq!['\n'],
    decreases xs.len(),
{
    let w = xs.push(y);
    if xs.len() == 0 {
        assert(w[0] == y);
        assert(w.drop_first() =~= Seq::<(String, V)>::empty());
        assert(name_lines(prefix, w) == prefix + w[0].0@ + seq!['\n'] + name_lines(
            prefix,
            w.drop_first(),
        ));
        assert(name_lines(prefix, w.drop_first()) == Seq::<char>::empty());
        assert(name_lines(prefix, xs) == Seq::<char>::empty());
    } else {
        assert(w[0] == xs[0]);
        assert(w.drop_first() =~= xs.drop_first().push(y));
        lemma_name_lines_snoc(prefix, xs.drop_first(), y);
        assert(name_lines(prefix, w) == prefix + w[0].0@ + seq!['\n'] + name_lines(
            prefix,
            w.drop_first(),
        ));
        assert(name_lines(prefix, xs) == prefix + xs[0].0@ + seq!['\n'] + name_lines(
            prefix,
            xs.drop_first(),
        ));
    }
}

pub proof fn lemma_event_lines_snoc(
    prefix: Seq<char>,
    xs: Seq<(u8, ModuleEventMetadata)>,
    y: (u8, ModuleEventMetadata),
)
    ensures
        event_lines(prefix, xs.push(y)) =~= event_lines(prefix, xs) + prefix + y.1.name@ + seq![
            '\n',
        ],
    decreases xs.len(),
{
    let w = xs.push(y);
    if xs.len() == 0 {
        assert(w[0] == y);
        assert(w.drop_first() =~= Seq::<(u8, ModuleEventMetadata)>::empty());
        assert(event_lines(prefix, w) == prefix + w[0].1.name@ + seq!['\n'] + event_lines(
            prefix,
            w.drop_first(),
        ));
        assert(event_lines(prefix, w.drop_first()) == Seq::<char>::empty());
        assert(event_lines(prefix, xs) == Seq::<char>::empty());
    } else {
        assert(w[0] == xs[0]);
        assert(w.drop_first() =~= xs.drop_first().push(y));
        lemma_event_lines_snoc(prefix, xs.drop_first(), y);
        assert(event_lines(prefix, w) == prefix + w[0].1.name@ + seq!['\n'] + event_lines(
            prefix,
            w.drop_first(),
        ));
        assert(event_lines(prefix, xs) == prefix + xs[0].1.name@ + seq!['\n'] + event_lines(
            prefix,
            xs.drop_first(),
        ));
    }
}

/// One module's part of the short human-readable description.
pub open spec fn pretty_module(m: ModuleMetadata) -> Seq<char> {
    m.name@ + seq!['\n'] + name_lines(seq![' ', 's', ' ', ' '], m.storage@) + name_lines(
        seq![' ', 'c', ' ', ' '],
        m.calls@,
    ) + event_lines(seq![' ', 'e', ' ', ' '], m.events@)
}

/// The short human-readable description of the whole model.
pub open spec fn pretty_modules(items: Seq<(String, ModuleMetadata)>) -> Seq<char>
    decreases items.len(),
{
    if items.len() == 0 {
        Seq::empty()
    } else {
        pretty_module(items[0].1) + pretty_modules(items.drop_first())
    }
}

pub proof fn lemma_pretty_modules_snoc(
    xs: Seq<(String, ModuleMetadata)>,
    y: (String, ModuleMetadata),
)
    ensures
        pretty_modules(xs.push(y)) =~= pretty_modules(xs) + pretty_module(y.1),
    decreases xs.len(),
{
    let w = xs.push(y);
    if xs.len() == 0 {
        assert(w[0] == y);
        assert(w.drop_first() =~= Seq::<(String, ModuleMetadata)>::empty());
        assert(pretty_modules(w) == pretty_module(w[0].1) + pretty_modules(w.drop_first()));
        assert(pretty_modules(w.drop_first()) == Seq::<char>::empty());
        assert(pretty_modules(xs) == Seq::<char>::empty());
    } else {
        assert(w[0] == xs[0]);
        assert(w.drop_first() =~= xs.drop_first().push(y));
        lemma_pretty_modules_snoc(xs.drop_first(), y);
        assert(pretty_modules(w) == pretty_module(w[0].1) + pretty_modules(w.drop_first()));
        assert(pretty_modules(xs) == pretty_module(xs[0].1) + pretty_modules(xs.drop_first()));
    }
}

fn push_name_lines<V>(v: &mut Vec<char>, prefix: &str, items: &Vec<(String, V)>)
    ensures
        final(v)@ == old(v)@ + name_lines(prefix@, items@),
{
    let mut i: usize = 0;
    while i < items.len()
        invariant
            i <= items@.len(),
            v@ == old(v)@ + name_lines(prefix@, items@.subrange(0, i as int)),
        decreases items@.len() - i,
    {
        crate::text::push_str_chars(v, prefix);
        crate::text::push_str_chars(v, items[i].0.as_str());
        v.push('\n');
        proof {
            lemma_name_lines_snoc(prefix@, items@.subrange(0, i as int), items@[i as int]);
            assert(items@.subrange(0, i as int).push(items@[i as int]) =~= items@.subrange(
                0,
                i as int + 1,
            ));
            assert(v@ =~= old(v)@ + name_lines(prefix@, items@.subrange(0, i as int + 1)));
        }
        i = i + 1;
    }
    proof {
        assert(items@.subrange(0, items@.len() as int) =~= items@);
    }
}

fn push_event_lines(v: &mut Vec<char>, prefix: &str, items: &Vec<(u8, ModuleEventMetadata)>)
    ensures
        final(v)@ == old(v)@ + event_lines(prefix@, items@),
{
    let mut i: usize = 0;
    while i < items.len()
        invariant
            i <= items@.len(),
            v@ == old(v)@ + event_lines(prefix@, items@.subrange(0, i as int)),
        decreases items@.len() - i,
    {
        crate::text::push_str_chars(v, prefix);
        crate::text::push_str_chars(v, items[i].1.name.as_str());
        v.push('\n');
        proof {
            lemma_event_lines_snoc(prefix@, items@.subrange(0, i as int), items@[i as int]);
            assert(items@.subrange(0, i as int).push(items@[i as int]) =~= items@.subrange(
                0,
                i as int + 1,
            ));
            assert(v@ =~= old(v)@ + event_lines(prefix@, items@.subrange(0, i as int + 1)));
        }
        i = i + 1;
    }
    proof {
        assert(items@.subrange(0, items@.len() as int) =~= items@);
    }
}

impl Metadata {
    /// A short human-readable description of the model: each module's
    /// name, then one line per storage entry, call and event.
    pub fn pretty(&self) -> (r: String)
        ensures
            r@ == pretty_modules(self.modules@),
    {
        let mut v: Vec<char> = Vec::new();
        let mut i: usize = 0;
        while i < self.modules.len()
            invariant
                i <= self.modules@.len(),
                v@ == pretty_modules(self.modules@.subrange(0, i as int)),
            decreases self.modules@.len() - i,
        {
            let m = &self.modules[i].1;
            crate::text::push_str_chars(&mut v, m.name.as_str());
            v.push('\n');
            push_name_lines(&mut v, " s  ", &m.storage);
            push_name_lines(&mut v, " c  ", &m.calls);
            push_event_lines(&mut v, " e  ", &m.events);
            proof {
                reveal_strlit(" s  ");
                reveal_strlit(" c  ");
                reveal_strlit(" e  ");
                assert(" s  "@ =~= seq![' ', 's', ' ', ' ']);
                assert(" c  "@ =~= seq![' ', 'c', ' ', ' ']);
                assert(" e  "@ =~= seq![' ', 'e', ' ', ' ']);
                lemma_pretty_modules_snoc(
                    self.modules@.subrange(0, i as int),
                    self.modules@[i as int],
                );
                assert(self.modules@.subrange(0, i as int).push(self.modules@[i as int])
                    =~= self.modules@.subrange(0, i as int + 1));
                assert(v@ =~= pretty_modules(self.modules@.subrange(0, i as int + 1)));
            }
            i = i + 1;
        }
        proof {
            assert(self.modules@.subrange(0, self.modules@.len() as int) =~= self.modules@);
        }
        crate::text::string_from_chars(&v)
    }
}


/// The text naming a hasher in the detailed description.
pub open spec fn hasher_text(h: StorageHasher) -> Seq<char> {
    match h {
        StorageHasher::Blake2_128 => "Blake2_128"@,
        StorageHasher::Blake2_256 => "Blake2_256"@,
        StorageHasher::Blake2_128Concat => "Blake2_128Concat"@,
        StorageHasher::Twox128 => "Twox128"@,
        StorageHasher::Twox256 => "Twox256"@,
        StorageHasher::Twox64Concat => "Twox64Concat"@,
    }
}

/// The text naming a modifier in the detailed description.
pub open spec fn modifier_text(m: StorageEntryModifier) -> Seq<char> {
    match m {
        StorageEntryModifier::Optional => "Optional"@,
        StorageEntryModifier::DefaultValue => "Default"@,
    }
}

/// The text describing a storage entry's shape in the detailed
/// description.
pub open spec fn ty_text(t: StorageEntryType) -> Seq<char> {
    match t {
        StorageEntryType::Plain(v) => "Plain("@ + v@ + ")"@,
        StorageEntryType::Mapped { hasher, key, value, .. } => "Map("@ + hasher_text(hasher)
            + ": "@ + key@ + " -> "@ + value@ + ")"@,
        StorageEntryType::DoubleMapped { hasher, key1, key2, value, key2_hasher } => "DoubleMap("@
            + hasher_text(hasher) + ": "@ + key1@ + ", "@ + hasher_text(key2_hasher) + ": "@
            + key2@ + " -> "@ + value@ + ")"@,
    }
}

/// One storage entry's line in the detailed description.
pub open spec fn detailed_storage_line(e: (String, StorageMetadata)) -> Seq<char> {
    " S  "@ + e.0@ + " TYPE "@ + ty_text(e.1.ty) + " MOD "@ + modifier_text(e.1.modifier) + seq![
        '\n',
    ]
}

/// The storage entries' lines of the detailed description, in order.
pub open spec fn detailed_storage_lines(items: Seq<(String, StorageMetadata)>) -> Seq<char>
    decreases items.len(),
{
    if items.len() == 0 {
        Seq::empty()
    } else {
        detailed_storage_line(items[0]) + detailed_storage_lines(items.drop_first())
    }
}

pub proof fn lemma_detailed_storage_snoc(
    xs: Seq<(String, StorageMetadata)>,
    y: (String, StorageMetadata),
)
    ensures
        detailed_storage_lines(xs.push(y)) =~= detailed_storage_lines(xs)
            + detailed_storage_line(y),
    decreases xs.len(),
{
    let w = xs.push(y);
    if xs.len() == 0 {
        assert(w[0] == y);
        assert(w.drop_first() =~= Seq::<(String, StorageMetadata)>::empty());
        assert(detailed_storage_lines(w) == detailed_storage_line(w[0])
            + detailed_storage_lines(w.drop_first()));
        assert(detailed_storage_lines(w.drop_first()) == Seq::<char>::empty());
        assert(detailed_storage_lines(xs) == Seq::<char>::empty());
    } else {
        assert(w[0] == xs[0]);
        assert(w.drop_first() =~= xs.drop_first().push(y));
        lemma_detailed_storage_snoc(xs.drop_first(), y);
        assert(detailed_storage_lines(w) == detailed_storage_line(w[0])
            + detailed_storage_lines(w.drop_first()));
        assert(detailed_storage_lines(xs) == detailed_storage_line(xs[0])
            + detailed_storage_lines(xs.drop_first()));
    }
}

/// One module's part of the detailed description.
pub open spec fn detailed_module(m: ModuleMetadata) -> Seq<char> {
    m.name@ + seq!['\n'] + detailed_storage_lines(m.storage@) + name_lines(" C  "@, m.calls@)
        + event_lines(" E  "@, m.events@)
}

/// The detailed description of the whole model.
pub open spec fn detailed_modules(items: Seq<(String, ModuleMetadata)>) -> Seq<char>
    decreases items.len(),
{
    if items.len() == 0 {
        Seq::empty()
    } else {
        detailed_module(items[0].1) + detailed_modules(items.drop_first())
    }
}

pub proof fn lemma_detailed_modules_snoc(
    xs: Seq<(String, ModuleMetadata)>,
    y: (String, ModuleMetadata),
)
    ensures
        detailed_modules(xs.push(y)) =~= detailed_modules(xs) + detailed_module(y.1),
    decreases xs.len(),
{
    let w = xs.push(y);
    if xs.len() == 0 {
        assert(w[0] == y);
        assert(w.drop_first() =~= Seq::<(String, ModuleMetadata)>::empty());
        assert(detailed_modules(w) == detailed_module(w[0].1) + detailed_modules(
            w.drop_first(),
        ));
        assert(detailed_modules(w.drop_first()) == Seq::<char>::empty());
        assert(detailed_modules(xs) == Seq::<char>::empty());
    } else {
        assert(w[0] == xs[0]);
        assert(w.drop_first() =~= xs.drop_first().push(y));
        lemma_detailed_modules_snoc(xs.drop_first(), y);
        assert(detailed_modules(w) == detailed_module(w[0].1) + detailed_modules(
            w.drop_first(),
        ));
        assert(detailed_modules(xs) == detailed_module(xs[0].1) + detailed_modules(
            xs.drop_first(),
        ));
    }
}

fn push_hasher_text(v: &mut Vec<char>, h: StorageHasher)
    ensures
        final(v)@ == old(v)@ + hasher_text(h),
{
    match h {
        StorageHasher::Blake2_128 => crate::text::push_str_chars(v, "Blake2_128"),
        StorageHasher::Blake2_256 => crate::text::push_str_chars(v, "Blake2_256"),
        StorageHasher::Blake2_128Concat => crate::text::push_str_chars(v, "Blake2_128Concat"),
        StorageHasher::Twox128 => crate::text::push_str_chars(v, "Twox128"),
        StorageHasher::Twox256 => crate::text::push_str_chars(v, "Twox256"),
        StorageHasher::Twox64Concat => crate::text::push_str_chars(v, "Twox64Concat"),
    }
}

fn push_ty_text(v: &mut Vec<char>, t: &StorageEntryType)
    ensures
        final(v)@ == old(v)@ + ty_text(*t),
{
    match t {
        StorageEntryType::Plain(val) => {
            crate::text::push_str_chars(v, "Plain(");
            crate::text::push_str_chars(v, val.as_str());
            crate::text::push_str_chars(v, ")");
            proof {
                assert(v@ =~= old(v)@ + ty_text(*t));
            }
        },
        StorageEntryType::Mapped { hasher, key, value, .. } => {
            crate::text::push_str_chars(v, "Map(");
            push_hasher_text(v, *hasher);
            crate::text::push_str_chars(v, ": ");
            crate::text::push_str_chars(v, key.as_str());
            crate::text::push_str_chars(v, " -> ");
            crate::text::push_str_chars(v, value.as_str());
            crate::text::push_str_chars(v, ")");
            proof {
                assert(v@ =~= old(v)@ + ty_text(*t));
            }
        },
        StorageEntryType::DoubleMapped { hasher, key1, key2, value, key2_hasher } => {
            crate::text::push_str_chars(v, "DoubleMap(");
            push_hasher_text(v, *hasher);
            crate::text::push_str_chars(v, ": ");
            crate::text::push_str_chars(v, key1.as_str());
            crate::text::push_str_chars(v, ", ");
            push_hasher_text(v, *key2_hasher);
            crate::text::push_str_chars(v, ": ");
            crate::text::push_str_chars(v, key2.as_str());
            crate::text::push_str_chars(v, " -> ");
            crate::text::push_str_chars(v, value.as_str());
            crate::text::push_str_chars(v, ")");
            proof {
                assert(v@ =~= old(v)@ + ty_text(*t));
            }
        },
    }
}

fn push_detailed_storage_lines(v: &mut Vec<char>, items: &Vec<(String, StorageMetadata)>)
    ensures
        final(v)@ == old(v)@ + detailed_storage_lines(items@),
{
    let mut i: usize = 0;
    while i < items.len()
        invariant
            i <= items@.len(),
            v@ == old(v)@ + detailed_storage_lines(items@.subrange(0, i as int)),
        decreases items@.len() - i,
    {
        crate::text::push_str_chars(v, " S  ");
        crate::text::push_str_chars(v, items[i].0.as_str());
        crate::text::push_str_chars(v, " TYPE ");
        push_ty_text(v, &items[i].1.ty);
        crate::text::push_str_chars(v, " MOD ");
        match items[i].1.modifier {
            StorageEntryModifier::Optional => crate::text::push_str_chars(v, "Optional"),
            StorageEntryModifier::DefaultValue => crate::text::push_str_chars(v, "Default"),
        }
        v.push('\n');
        proof {
            lemma_detailed_storage_snoc(items@.subrange(0, i as int), items@[i as int]);
            assert(items@.subrange(0, i as int).push(items@[i as int]) =~= items@.subrange(
                0,
                i as int + 1,
            ));
            assert(v@ =~= old(v)@ + detailed_storage_lines(items@.subrange(0, i as int + 1)));
        }
        i = i + 1;
    }
    proof {
        assert(items@.subrange(0, items@.len() as int) =~= items@);
    }
}

impl Metadata {
    /// A detailed human-readable description of the model: each module's
    /// name, then one line per storage entry (with its shape and
    /// modifier), call and event.
    pub fn detailed_pretty(&self) -> (r: String)
        ensures
            r@ == detailed_modules(self.modules@),
    {
        let mut v: Vec<char> = Vec::new();
        let mut i: usize = 0;
        while i < self.modules.len()
            invariant
                i <= self.modules@.len(),
                v@ == detailed_modules(self.modules@.subrange(0, i as int)),
            decreases self.modules@.len() - i,
        {
            let m = &self.modules[i].1;
            crate::text::push_str_chars(&mut v, m.name.as_str());
            v.push('\n');
            push_detailed_storage_lines(&mut v, &m.storage);
            push_name_lines(&mut v, " C  ", &m.calls);
            push_event_lines(&mut v, " E  ", &m.events);
            proof {
                lemma_detailed_modules_snoc(
                    self.modules@.subrange(0, i as int),
                    self.modules@[i as int],
                );
                assert(self.modules@.subrange(0, i as int).push(self.modules@[i as int])
                    =~= self.modules@.subrange(0, i as int + 1));
                assert(v@ =~= detailed_modules(self.modules@.subrange(0, i as int + 1)));
            }
            i = i + 1;
        }
        proof {
            assert(self.modules@.subrange(0, self.modules@.len() as int) =~= self.modules@);
        }
        crate::text::string_from_chars(&v)
    }
}

} // verus!
