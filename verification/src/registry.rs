//! The type-definition registry: a base catalogue of module-scoped type
//! definitions, overlaid by module-scoped and chain+spec-range-scoped
//! overrides, answering `(module, type, spec version, chain) -> type`.

use vstd::prelude::*;
use crate::marker::RustEnum;
use crate::marker::RustTypeMarker;
use crate::marker::StructField;
use crate::text::lower_seq;
use crate::text::lower_str;
use crate::text::str_eq;
use crate::error::Error;
use crate::definitions::parse_type_def;

verus! {

/// Does the association list hold the key?
pub open spec fn assoc_has<V>(s: Seq<(String, V)>, k: Seq<char>) -> bool {
    exists|i: int| 0 <= i < s.len() && (#[trigger] s[i]).0@ == k
}

/// The value under the first occurrence of the key.
pub open spec fn assoc_get<V>(s: Seq<(String, V)>, k: Seq<char>) -> V
    decreases s.len(),
{
    if s.len() == 0 {
        arbitrary()
    } else if s[0].0@ == k {
        s[0].1
    } else {
        assoc_get(s.drop_first(), k)
    }
}

proof fn lemma_assoc_first<V>(s: Seq<(String, V)>, k: Seq<char>, i: int)
    requires
        0 <= i < s.len(),
        s[i].0@ == k,
        forall|j: int| 0 <= j < i ==> (#[trigger] s[j]).0@ != k,
    ensures
        assoc_has(s, k),
        assoc_get(s, k) == s[i].1,
    decreases i,
{
    if i > 0 {
        let t = s.drop_first();
        assert(forall|j: int| 0 <= j < i - 1 ==> (#[trigger] t[j]).0@ != k);
        assert(t[i - 1] == s[i]);
        lemma_assoc_first(t, k, i - 1);
    }
}

/// Finds the value under a key, if the key is present.
pub fn assoc_find<'a, V>(entries: &'a Vec<(String, V)>, key: &str) -> (r: Option<&'a V>)
    ensures
        match r {
            Some(v) => assoc_has(entries@, key@) && *v == assoc_get(entries@, key@),
            None => !assoc_has(entries@, key@),
        },
{
    let mut i: usize = 0;
    while i < entries.len()
        invariant
            i <= entries@.len(),
            forall|j: int| 0 <= j < i ==> (#[trigger] entries@[j]).0@ != key@,
        decreases entries@.len() - i,
    {
        if str_eq(entries[i].0.as_str(), key) {
            proof {
                lemma_assoc_first(entries@, key@, i as int);
            }
            return Some(&entries[i].1);
        }
        i = i + 1;
    }
    None
}

/// The types one module declares: type name to structural type.
pub struct ModuleTypes {
    pub types: Vec<(String, RustTypeMarker)>,
}

impl ModuleTypes {
    /// Looks a type up by its name.
    pub fn get(&self, ty: &str) -> (r: Option<&RustTypeMarker>)
        ensures
            match r {
                Some(t) => assoc_has(self.types@, ty@) && *t == assoc_get(self.types@, ty@),
                None => !assoc_has(self.types@, ty@),
            },
    {
        assoc_find(&self.types, ty)
    }
}

/// The base catalogue: module name to that module's type map.
pub struct Modules {
    pub modules: Vec<(String, ModuleTypes)>,
}

/// One chain override entry: an inclusive spec-version range (an absent
/// bound is unbounded on that side) and the types it substitutes.
pub struct ChainSpecTypes {
    pub min: Option<usize>,
    pub max: Option<usize>,
    pub types: Vec<(String, RustTypeMarker)>,
}

/// Is the spec version inside the entry's inclusive range?
pub open spec fn in_range(e: ChainSpecTypes, v: usize) -> bool {
    (match e.min {
        Some(m) => m <= v,
        None => true,
    }) && (match e.max {
        Some(m) => v <= m,
        None => true,
    })
}

/// No spec version lies in both ranges.
pub open spec fn disjoint_pair(a: ChainSpecTypes, b: ChainSpecTypes) -> bool {
    forall|v: usize| !(in_range(a, v) && in_range(b, v))
}

/// The ranges of one chain are pairwise disjoint.
pub open spec fn ranges_disjoint(rs: Seq<ChainSpecTypes>) -> bool {
    forall|x: int, y: int|
        0 <= x < y < rs.len() ==> disjoint_pair(#[trigger] rs[x], #[trigger] rs[y])
}

/// The index of the first range entry containing `v`, or `-1`.
pub open spec fn find_range(rs: Seq<ChainSpecTypes>, v: usize) -> int
    decreases rs.len(),
{
    if rs.len() == 0 {
        -1
    } else if in_range(rs[0], v) {
        0
    } else if find_range(rs.drop_first(), v) < 0 {
        -1
    } else {
        find_range(rs.drop_first(), v) + 1
    }
}

pub proof fn lemma_find_range(rs: Seq<ChainSpecTypes>, v: usize)
    ensures
        find_range(rs, v) >= 0 ==> find_range(rs, v) < rs.len() && in_range(
            rs[find_range(rs, v)],
            v,
        ),
        find_range(rs, v) < 0 ==> forall|i: int| 0 <= i < rs.len() ==> !in_range(
            #[trigger] rs[i],
            v,
        ),
        forall|i: int| 0 <= i < find_range(rs, v) ==> !in_range(#[trigger] rs[i], v),
    decreases rs.len(),
{
    if rs.len() > 0 && !in_range(rs[0], v) {
        let t = rs.drop_first();
        lemma_find_range(t, v);
        assert(forall|i: int| 1 <= i < rs.len() ==> rs[i] == t[i - 1]);
    }
}

/// The layered overrides: module-scoped substitutions, applied first,
/// and chain+spec-range-scoped substitutions.
pub struct Overrides {
    pub module_types: Vec<(String, ModuleTypes)>,
    pub chain_types: Vec<(String, Vec<ChainSpecTypes>)>,
}

/// Every chain's override ranges are pairwise disjoint.
pub open spec fn overrides_wf(o: Overrides) -> bool {
    forall|i: int|
        0 <= i < o.chain_types@.len() ==> ranges_disjoint((#[trigger] o.chain_types@[i]).1@)
}

/// The module-scoped override for `(module, ty)`, if any.
pub open spec fn spec_module_override(o: Overrides, module: Seq<char>, ty: Seq<char>) -> Option<
    RustTypeMarker,
> {
    if assoc_has(o.module_types@, module) && assoc_has(
        assoc_get(o.module_types@, module).types@,
        ty,
    ) {
        Some(assoc_get(assoc_get(o.module_types@, module).types@, ty))
    } else {
        None
    }
}

/// The chain+spec-range override for `(chain, v, ty)`, if any: the first
/// range of the chain containing `v` is consulted.
pub open spec fn spec_chain_override(
    o: Overrides,
    chain: Seq<char>,
    v: usize,
    ty: Seq<char>,
) -> Option<RustTypeMarker> {
    if assoc_has(o.chain_types@, chain) {
        let rs = assoc_get(o.chain_types@, chain)@;
        if find_range(rs, v) >= 0 && assoc_has(rs[find_range(rs, v)].types@, ty) {
            Some(assoc_get(rs[find_range(rs, v)].types@, ty))
        } else {
            None
        }
    } else {
        None
    }
}

/// An override consultation: module-scoped overrides win over
/// chain-scoped ones.
pub open spec fn spec_check_overrides(
    t: PolkadotTypes,
    module: Seq<char>,
    ty: Seq<char>,
    v: usize,
    chain: Seq<char>,
) -> Option<RustTypeMarker> {
    match spec_module_override(t.overrides, module, ty) {
        Some(m) => Some(m),
        None => spec_chain_override(t.overrides, chain, v, ty),
    }
}

/// The base catalogue's answer for `(module, ty)`.
pub open spec fn spec_base(mods: Modules, module: Seq<char>, ty: Seq<char>) -> Option<
    RustTypeMarker,
> {
    if assoc_has(mods.modules@, module) && assoc_has(
        assoc_get(mods.modules@, module).types@,
        ty,
    ) {
        Some(assoc_get(assoc_get(mods.modules@, module).types@, ty))
    } else {
        None
    }
}

/// The registry's full resolution order: module override, then chain
/// override, then the base catalogue.
pub open spec fn spec_get(
    t: PolkadotTypes,
    module: Seq<char>,
    ty: Seq<char>,
    v: usize,
    chain: Seq<char>,
) -> Option<RustTypeMarker> {
    match spec_check_overrides(t, module, ty, v, chain) {
        Some(m) => Some(m),
        None => spec_base(t.mods, module, ty),
    }
}

/// The registry root: the base catalogue and its overrides.
pub struct PolkadotTypes {
    pub mods: Modules,
    pub overrides: Overrides,
}

impl PolkadotTypes {
    /// Checks whether an override exists for the query; a module-scoped
    /// override wins over a chain-scoped one.
    pub fn check_overrides(&self, module: &str, ty: &str, spec_ver: usize, chain: &str) -> (r:
        Option<&RustTypeMarker>)
        ensures
            match r {
                Some(t) => spec_check_overrides(*self, module@, ty@, spec_ver, chain@) == Some(*t),
                None => spec_check_overrides(*self, module@, ty@, spec_ver, chain@) is None,
            },
    {
        if let Some(m) = assoc_find(&self.overrides.module_types, module) {
            if let Some(t) = m.get(ty) {
                return Some(t);
            }
        }
        if let Some(rs) = assoc_find(&self.overrides.chain_types, chain) {
            let mut i: usize = 0;
            while i < rs.len()
                invariant
                    i <= rs@.len(),
                    forall|j: int| 0 <= j < i ==> !in_range(#[trigger] rs@[j], spec_ver),
                    spec_module_override(self.overrides, module@, ty@) is None,
                    assoc_has(self.overrides.chain_types@, chain@),
                    *rs == assoc_get(self.overrides.chain_types@, chain@),
                decreases rs@.len() - i,
            {
                let hit = (match rs[i].min {
                    Some(m) => m <= spec_ver,
                    None => true,
                }) && (match rs[i].max {
                    Some(m) => spec_ver <= m,
                    None => true,
                });
                if hit {
                    proof {
                        lemma_find_range_at(rs@, spec_ver, i as int);
                    }
                    return assoc_find(&rs[i].types, ty);
                }
                i = i + 1;
            }
            proof {
                lemma_find_range_none(rs@, spec_ver);
            }
        }
        None
    }

    /// Answers `(module, ty, spec version, chain)` by the resolution
    /// order: module override, chain override, base catalogue; a miss
    /// everywhere is `None`.  Module and chain names are matched
    /// case-insensitively.
    pub fn get(&self, module: &str, ty: &str, spec_ver: usize, chain: &str) -> (r: Option<
        &RustTypeMarker,
    >)
        ensures
            match r {
                Some(t) => spec_get(
                    *self,
                    lower_seq(module@),
                    ty@,
                    spec_ver,
                    lower_seq(chain@),
                ) == Some(*t),
                None => spec_get(*self, lower_seq(module@), ty@, spec_ver, lower_seq(chain@))
                    is None,
            },
    {
        let module_l = lower_str(module);
        let chain_l = lower_str(chain);
        if let Some(t) = self.check_overrides(module_l.as_str(), ty, spec_ver, chain_l.as_str()) {
            return Some(t);
        }
        if let Some(m) = assoc_find(&self.mods.modules, module_l.as_str()) {
            if let Some(t) = m.get(ty) {
                return Some(t);
            }
        }
        None
    }

    /// Follows one type-pointer hop after stripping a known path prefix
    /// (`T::`, `<T as Trait>::`) from the pointer's name, as names
    /// arriving from decoded metadata carry them.  Anything other than a
    /// type pointer resolves to `None`.
    pub fn resolve_query(&self, module: &str, ty: &RustTypeMarker) -> (r: Option<
        &RustTypeMarker,
    >)
        ensures
            match r {
                Some(t) => spec_resolve_query(*self, module@, *ty) == Some(*t),
                None => spec_resolve_query(*self, module@, *ty) is None,
            },
            !(ty is TypePointer) ==> r is None,
    {
        match ty {
            RustTypeMarker::TypePointer(p) => {
                let name = match remove_prefix(p.as_str()) {
                    Some(q) => q,
                    None => p.clone(),
                };
                if let Some(m) = assoc_find(&self.mods.modules, module) {
                    if let Some(t) = m.get(name.as_str()) {
                        return Some(t);
                    }
                }
                None
            },
            _ => None,
        }
    }

    /// Follows exactly one type-pointer hop into the base catalogue of
    /// `module`.  Anything other than a type pointer resolves to `None`;
    /// so does a pointer whose target the module does not declare.
    pub fn resolve(&self, module: &str, ty: &RustTypeMarker) -> (r: Option<&RustTypeMarker>)
        ensures
            match r {
                Some(t) => spec_resolve(*self, module@, *ty) == Some(*t),
                None => spec_resolve(*self, module@, *ty) is None,
            },
            !(ty is TypePointer) ==> r is None,
    {
        match ty {
            RustTypeMarker::TypePointer(p) => {
                if let Some(m) = assoc_find(&self.mods.modules, module) {
                    if let Some(t) = m.get(p.as_str()) {
                        return Some(t);
                    }
                }
                None
            },
            _ => None,
        }
    }
}

/// One pointer hop as the query surface performs it: the pointer's name
/// is first stripped of a known path prefix, then dereferenced in the
/// base catalogue of `module`.
pub open spec fn spec_resolve_query(
    t: PolkadotTypes,
    module: Seq<char>,
    ty: RustTypeMarker,
) -> Option<RustTypeMarker> {
    match ty {
        RustTypeMarker::TypePointer(p) => spec_base(
            t.mods,
            module,
            match spec_remove_prefix(p@) {
                Some(q) => q,
                None => p@,
            },
        ),
        _ => None,
    }
}

/// One pointer hop: the base-catalogue entry a type pointer names, and
/// `None` for every self-describing type.
pub open spec fn spec_resolve(t: PolkadotTypes, module: Seq<char>, ty: RustTypeMarker) -> Option<
    RustTypeMarker,
> {
    match ty {
        RustTypeMarker::TypePointer(p) => spec_base(t.mods, module, p@),
        _ => None,
    }
}

proof fn lemma_find_range_at(rs: Seq<ChainSpecTypes>, v: usize, i: int)
    requires
        0 <= i < rs.len(),
        in_range(rs[i], v),
        forall|j: int| 0 <= j < i ==> !in_range(#[trigger] rs[j], v),
    ensures
        find_range(rs, v) == i,
    decreases i,
{
    if i > 0 {
        let t = rs.drop_first();
        assert(forall|j: int| 0 <= j < i - 1 ==> (#[trigger] t[j]) == rs[j + 1]);
        assert(t[i - 1] == rs[i]);
        lemma_find_range_at(t, v, i - 1);
    }
}

proof fn lemma_find_range_none(rs: Seq<ChainSpecTypes>, v: usize)
    requires
        forall|j: int| 0 <= j < rs.len() ==> !in_range(#[trigger] rs[j], v),
    ensures
        find_range(rs, v) < 0,
    decreases rs.len(),
{
    if rs.len() > 0 {
        lemma_find_range_none(rs.drop_first(), v);
    }
}

fn ranges_overlap(a: &ChainSpecTypes, b: &ChainSpecTypes) -> (r: bool)
    ensures
        r == !disjoint_pair(*a, *b),
{
    let lo_a: usize = match a.min {
        Some(m) => m,
        None => 0,
    };
    let hi_a: usize = match a.max {
        Some(m) => m,
        None => usize::MAX,
    };
    let lo_b: usize = match b.min {
        Some(m) => m,
        None => 0,
    };
    let hi_b: usize = match b.max {
        Some(m) => m,
        None => usize::MAX,
    };
    let r = lo_a <= hi_a && lo_b <= hi_b && lo_a <= hi_b && lo_b <= hi_a;
    proof {
        if r {
            let v: usize = if lo_a >= lo_b {
                lo_a
            } else {
                lo_b
            };
            assert(in_range(*a, v) && in_range(*b, v));
        }
    }
    r
}

/// Checks that the range entries are pairwise disjoint: the validation
/// run when overrides are loaded.
pub fn chain_ranges_disjoint(rs: &Vec<ChainSpecTypes>) -> (r: bool)
    ensures
        r == ranges_disjoint(rs@),
{
    let mut i: usize = 0;
    while i < rs.len()
        invariant
            i <= rs@.len(),
            forall|x: int, y: int|
                0 <= x < y < rs@.len() && x < i ==> disjoint_pair(
                    #[trigger] rs@[x],
                    #[trigger] rs@[y],
                ),
        decreases rs@.len() - i,
    {
        let mut j: usize = i + 1;
        while j < rs.len()
            invariant
                i < rs@.len(),
                i < j <= rs@.len(),
                forall|y: int| i < y < j ==> disjoint_pair(rs@[i as int], #[trigger] rs@[y]),
            decreases rs@.len() - j,
        {
            if ranges_overlap(&rs[i], &rs[j]) {
                proof {
                    assert(!disjoint_pair(rs@[i as int], rs@[j as int]));
                }
                return false;
            }
            j = j + 1;
        }
        i = i + 1;
    }
    true
}

impl Overrides {
    /// Assembles the overrides, validating at load that the spec-version
    /// ranges of each chain are pairwise disjoint; overlapping ranges
    /// are rejected.
    pub fn new(
        module_types: Vec<(String, ModuleTypes)>,
        chain_types: Vec<(String, Vec<ChainSpecTypes>)>,
    ) -> (r: Result<Overrides, Error>)
        ensures
            r is Ok <==> (forall|i: int|
                0 <= i < chain_types@.len() ==> ranges_disjoint(
                    (#[trigger] chain_types@[i]).1@,
                )),
            r matches Ok(o) ==> o.module_types == module_types && o.chain_types == chain_types
                && overrides_wf(o),
            r matches Err(e) ==> e == Error::OverlappingRanges,
    {
        let mut i: usize = 0;
        while i < chain_types.len()
            invariant
                i <= chain_types@.len(),
                forall|k: int|
                    0 <= k < i ==> ranges_disjoint((#[trigger] chain_types@[k]).1@),
            decreases chain_types@.len() - i,
        {
            if !chain_ranges_disjoint(&chain_types[i].1) {
                return Err(Error::OverlappingRanges);
            }
            i = i + 1;
        }
        Ok(Overrides { module_types, chain_types })
    }
}

/// Is `t` a type pointer naming `name`?
pub open spec fn points_to(t: RustTypeMarker, name: Seq<char>) -> bool {
    match t {
        RustTypeMarker::TypePointer(p) => p@ == name,
        _ => false,
    }
}

/// The `BalanceLock` definition: a struct of the four pointer-typed
/// fields `id`, `amount`, `until` and `reasons`, in that order.
pub open spec fn is_balance_lock_struct(t: RustTypeMarker) -> bool {
    match t {
        RustTypeMarker::Struct(fs) => fs@.len() == 4 && fs@[0].name@ == "id"@ && points_to(
            fs@[0].ty,
            "LockIdentifier"@,
        ) && fs@[1].name@ == "amount"@ && points_to(fs@[1].ty, "Balance"@) && fs@[2].name@
            == "until"@ && points_to(fs@[2].ty, "BlockNumber"@) && fs@[3].name@ == "reasons"@
            && points_to(fs@[3].ty, "WithdrawReasons"@),
        _ => false,
    }
}

/// The `DispatchError` definition: an enum with the ordered variants
/// `Other`, `CannotLookup`, `BadOrigin` (unit payloads) and `Module`
/// pointing at `DispatchErrorModule`.
pub open spec fn is_dispatch_error_enum(t: RustTypeMarker) -> bool {
    match t {
        RustTypeMarker::Enum(e) => match e {
            RustEnum::Struct(vs) => vs@.len() == 4 && vs@[0].name@ == "Other"@ && vs@[0].ty
                == RustTypeMarker::Null && vs@[1].name@ == "CannotLookup"@ && vs@[1].ty
                == RustTypeMarker::Null && vs@[2].name@ == "BadOrigin"@ && vs@[2].ty
                == RustTypeMarker::Null && vs@[3].name@ == "Module"@ && points_to(
                vs@[3].ty,
                "DispatchErrorModule"@,
            ),
            _ => false,
        },
        _ => false,
    }
}

fn tp(target: &str) -> (r: RustTypeMarker)
    ensures
        points_to(r, target@),
{
    RustTypeMarker::TypePointer(target.to_owned())
}

fn prim(name: &str) -> (r: RustTypeMarker)
    ensures
        r matches RustTypeMarker::Primitive(p) && p@ == name@,
{
    RustTypeMarker::Primitive(name.to_owned())
}

fn field(name: &str, ty: RustTypeMarker) -> (r: StructField)
    ensures
        r.name@ == name@,
        r.ty == ty,
{
    StructField { name: name.to_owned(), ty }
}

fn balance_lock_struct() -> (r: RustTypeMarker)
    ensures
        is_balance_lock_struct(r),
{
    let mut fields: Vec<StructField> = Vec::new();
    fields.push(field("id", tp("LockIdentifier")));
    fields.push(field("amount", tp("Balance")));
    fields.push(field("until", tp("BlockNumber")));
    fields.push(field("reasons", tp("WithdrawReasons")));
    RustTypeMarker::Struct(fields)
}

fn dispatch_error_enum() -> (r: RustTypeMarker)
    ensures
        is_dispatch_error_enum(r),
{
    let mut variants: Vec<StructField> = Vec::new();
    variants.push(field("Other", RustTypeMarker::Null));
    variants.push(field("CannotLookup", RustTypeMarker::Null));
    variants.push(field("BadOrigin", RustTypeMarker::Null));
    variants.push(field("Module", tp("DispatchErrorModule")));
    RustTypeMarker::Enum(RustEnum::Struct(variants))
}

fn base_definitions() -> (r: Modules)
    ensures
        assoc_has(r.modules@, "system"@),
        assoc_has(r.modules@, "balances"@),
        assoc_has(r.modules@, "contracts"@),
        spec_base(r, "system"@, "DispatchError"@) matches Some(d) && is_dispatch_error_enum(d),
        spec_base(r, "balances"@, "BalanceLock"@) matches Some(b) && is_balance_lock_struct(b),
        spec_base(r, "balances"@, "BalanceLockTo212"@) matches Some(b) && is_balance_lock_struct(
            b,
        ),
{
    let mut system: Vec<(String, RustTypeMarker)> = Vec::new();
    system.push(("DispatchError".to_owned(), dispatch_error_enum()));
    let mut dem: Vec<StructField> = Vec::new();
    dem.push(field("index", prim("u8")));
    dem.push(field("error", prim("u8")));
    system.push(("DispatchErrorModule".to_owned(), RustTypeMarker::Struct(dem)));

    let mut balances: Vec<(String, RustTypeMarker)> = Vec::new();
    balances.push(("BalanceLock".to_owned(), balance_lock_struct()));
    balances.push(("BalanceLockTo212".to_owned(), balance_lock_struct()));
    balances.push(("Balance".to_owned(), parse_type_def("u128")));
    balances.push(("LockIdentifier".to_owned(), parse_type_def("[u8; 8]")));
    balances.push(("BlockNumber".to_owned(), parse_type_def("u32")));
    let mut reasons: Vec<String> = Vec::new();
    reasons.push("Fee".to_owned());
    reasons.push("Misc".to_owned());
    reasons.push("All".to_owned());
    balances.push(("WithdrawReasons".to_owned(), RustTypeMarker::Enum(RustEnum::Unit(reasons))));

    let mut contracts: Vec<(String, RustTypeMarker)> = Vec::new();
    contracts.push(("StorageKey".to_owned(), parse_type_def("Vec<u8>")));
    contracts.push(("ContractStorageKey".to_owned(), parse_type_def("Vec<u8>")));

    let mut modules: Vec<(String, ModuleTypes)> = Vec::new();
    modules.push(("system".to_owned(), ModuleTypes { types: system }));
    modules.push(("balances".to_owned(), ModuleTypes { types: balances }));
    modules.push(("contracts".to_owned(), ModuleTypes { types: contracts }));
    proof {
        reveal_strlit("system");
        reveal_strlit("balances");
        reveal_strlit("contracts");
        reveal_strlit("DispatchError");
        reveal_strlit("BalanceLock");
        reveal_strlit("BalanceLockTo212");
        assert(modules@[0].0@ == "system"@);
        assert(modules@[1].0@ == "balances"@);
        assert(modules@[2].0@ == "contracts"@);
        assert("system"@ != "balances"@);
        assert("system"@ != "contracts"@);
        assert("balances"@ != "contracts"@);
        lemma_assoc_first(modules@, "system"@, 0);
        lemma_assoc_first(modules@, "balances"@, 1);
        lemma_assoc_first(modules@, "contracts"@, 2);
        assert(modules@[0].1.types@[0].0@ == "DispatchError"@);
        lemma_assoc_first(modules@[0].1.types@, "DispatchError"@, 0);
        assert(modules@[1].1.types@[0].0@ == "BalanceLock"@);
        lemma_assoc_first(modules@[1].1.types@, "BalanceLock"@, 0);
        assert("BalanceLock"@ != "BalanceLockTo212"@);
        assert(modules@[1].1.types@[1].0@ == "BalanceLockTo212"@);
        lemma_assoc_first(modules@[1].1.types@, "BalanceLockTo212"@, 1);
    }
    Modules { modules }
}

fn override_definitions() -> (r: (Vec<(String, ModuleTypes)>, Vec<(String, Vec<ChainSpecTypes>)>))
    ensures
        forall|i: int| 0 <= i < r.1@.len() ==> ranges_disjoint((#[trigger] r.1@[i]).1@),
        r.0@.len() == 1,
        r.0@[0].0@ == "contracts"@,
        r.0@[0].1.types@.len() == 1,
        r.0@[0].1.types@[0].0@ == "StorageKey"@,
        points_to(r.0@[0].1.types@[0].1, "ContractStorageKey"@),
        r.1@.len() == 1,
        r.1@[0].0@ == "kusama"@,
        r.1@[0].1@.len() == 2,
        r.1@[0].1@[0].min == Some(1019usize),
        r.1@[0].1@[0].max == Some(1031usize),
        r.1@[0].1@[1].min == Some(1032usize),
        r.1@[0].1@[1].max == None::<usize>,
        forall|k: int|
            0 <= k < 2 ==> (#[trigger] r.1@[0].1@[k]).types@.len() == 1
                && r.1@[0].1@[k].types@[0].0@ == "BalanceLock"@ && points_to(
                r.1@[0].1@[k].types@[0].1,
                "BalanceLockTo212"@,
            ),
{
    let mut contracts_types: Vec<(String, RustTypeMarker)> = Vec::new();
    contracts_types.push(("StorageKey".to_owned(), tp("ContractStorageKey")));
    let mut module_types: Vec<(String, ModuleTypes)> = Vec::new();
    module_types.push(("contracts".to_owned(), ModuleTypes { types: contracts_types }));

    let mut t1: Vec<(String, RustTypeMarker)> = Vec::new();
    t1.push(("BalanceLock".to_owned(), tp("BalanceLockTo212")));
    let e1 = ChainSpecTypes { min: Some(1019), max: Some(1031), types: t1 };
    let mut t2: Vec<(String, RustTypeMarker)> = Vec::new();
    t2.push(("BalanceLock".to_owned(), tp("BalanceLockTo212")));
    let e2 = ChainSpecTypes { min: Some(1032), max: None, types: t2 };
    let mut kusama: Vec<ChainSpecTypes> = Vec::new();
    kusama.push(e1);
    kusama.push(e2);
    proof {
        assert(kusama@.len() == 2);
        assert(kusama@[0].max == Some(1031usize));
        assert(kusama@[1].min == Some(1032usize));
        assert(disjoint_pair(kusama@[0], kusama@[1]));
        assert(ranges_disjoint(kusama@));
    }
    let mut chain_types: Vec<(String, Vec<ChainSpecTypes>)> = Vec::new();
    chain_types.push(("kusama".to_owned(), kusama));
    (module_types, chain_types)
}

proof fn lemma_kusama_chain(o: Overrides, v: usize)
    requires
        o.chain_types@.len() == 1,
        o.chain_types@[0].0@ == "kusama"@,
        o.chain_types@[0].1@.len() == 2,
        o.chain_types@[0].1@[0].min == Some(1019usize),
        o.chain_types@[0].1@[0].max == Some(1031usize),
        o.chain_types@[0].1@[1].min == Some(1032usize),
        o.chain_types@[0].1@[1].max == None::<usize>,
        forall|k: int|
            0 <= k < 2 ==> (#[trigger] o.chain_types@[0].1@[k]).types@.len() == 1
                && o.chain_types@[0].1@[k].types@[0].0@ == "BalanceLock"@ && points_to(
                o.chain_types@[0].1@[k].types@[0].1,
                "BalanceLockTo212"@,
            ),
    ensures
        1019 <= v ==> (spec_chain_override(o, "kusama"@, v, "BalanceLock"@) matches Some(p)
            && points_to(p, "BalanceLockTo212"@)),
        v < 1019 ==> spec_chain_override(o, "kusama"@, v, "BalanceLock"@) is None,
        spec_chain_override(o, "kusama"@, v, "DispatchError"@) is None,
{
    broadcast use vstd::string::group_string_axioms;

    reveal_strlit("BalanceLock");
    reveal_strlit("DispatchError");
    assert("DispatchError"@.len() == 13);
    assert("BalanceLock"@.len() == 11);
    lemma_assoc_first(o.chain_types@, "kusama"@, 0);
    let rs = assoc_get(o.chain_types@, "kusama"@)@;
    assert(rs == o.chain_types@[0].1@);
    reveal_with_fuel(find_range, 4);
    assert(rs.drop_first()[0] == rs[1]);
    assert(rs.drop_first().drop_first().len() == 0);
    if v < 1019 {
        assert(!in_range(rs[0], v));
        assert(!in_range(rs[1], v));
        assert(find_range(rs, v) < 0);
    } else if v <= 1031 {
        assert(in_range(rs[0], v));
        assert(find_range(rs, v) == 0);
        lemma_assoc_first(rs[0].types@, "BalanceLock"@, 0);
    } else {
        assert(!in_range(rs[0], v));
        assert(in_range(rs[1], v));
        assert(find_range(rs, v) == 1);
        lemma_assoc_first(rs[1].types@, "BalanceLock"@, 0);
    }
    lemma_find_range(rs, v);
    if find_range(rs, v) >= 0 {
        let fr = find_range(rs, v);
        assert(fr < 2);
        assert("DispatchError"@ != "BalanceLock"@);
        assert(!assoc_has(rs[fr].types@, "DispatchError"@)) by {
            assert(forall|i: int|
                0 <= i < rs[fr].types@.len() ==> (#[trigger] rs[fr].types@[i]).0@
                    != "DispatchError"@);
        }
    }
}

impl PolkadotTypes {
    /// Builds the built-in catalogue of type definitions and overrides,
    /// validating at load that no chain declares overlapping
    /// spec-version ranges.  The contract pins the catalogue content the
    /// queries rely on: the `DispatchError` enum and the two
    /// `BalanceLock` shapes in the base catalogue, the contracts
    /// module-scoped override, and the kusama `BalanceLock` substitution
    /// from spec version 1019 up with an open upper bound — so the
    /// registry's answers to those queries follow from `get`'s and
    /// `resolve`'s own contracts.
    pub fn new() -> (r: Result<PolkadotTypes, Error>)
        ensures
            r is Ok,
            overrides_wf(r->Ok_0.overrides),
            assoc_has(r->Ok_0.mods.modules@, "system"@),
            assoc_has(r->Ok_0.mods.modules@, "balances"@),
            assoc_has(r->Ok_0.mods.modules@, "contracts"@),
            spec_base(r->Ok_0.mods, "system"@, "DispatchError"@) matches Some(d)
                && is_dispatch_error_enum(d),
            spec_base(r->Ok_0.mods, "balances"@, "BalanceLock"@) matches Some(b)
                && is_balance_lock_struct(b),
            spec_base(r->Ok_0.mods, "balances"@, "BalanceLockTo212"@) matches Some(b)
                && is_balance_lock_struct(b),
            spec_module_override(r->Ok_0.overrides, "contracts"@, "StorageKey"@) matches Some(p)
                && points_to(p, "ContractStorageKey"@),
            forall|v: usize|
                1019 <= v ==> (#[trigger] spec_chain_override(
                    r->Ok_0.overrides,
                    "kusama"@,
                    v,
                    "BalanceLock"@,
                ) matches Some(p) && points_to(p, "BalanceLockTo212"@)),
            forall|v: usize|
                v < 1019 ==> (#[trigger] spec_chain_override(
                    r->Ok_0.overrides,
                    "kusama"@,
                    v,
                    "BalanceLock"@,
                )) is None,
            forall|v: usize|
                #[trigger] spec_get(r->Ok_0, "balances"@, "BalanceLock"@, v, "kusama"@) matches Some(
                    m,
                ) && (if 1019 <= v {
                    points_to(m, "BalanceLockTo212"@)
                } else {
                    is_balance_lock_struct(m)
                }),
            forall|v: usize|
                #[trigger] spec_get(r->Ok_0, "system"@, "DispatchError"@, v, "kusama"@) matches Some(
                    d,
                ) && is_dispatch_error_enum(d),
            forall|v: usize, c: Seq<char>|
                #[trigger] spec_get(r->Ok_0, "contracts"@, "StorageKey"@, v, c) matches Some(p)
                    && points_to(p, "ContractStorageKey"@),
    {
        let mods = base_definitions();
        let (module_types, chain_types) = override_definitions();
        match Overrides::new(module_types, chain_types) {
            Ok(o) => {
                let t = PolkadotTypes { mods, overrides: o };
                proof {
                    broadcast use vstd::string::group_string_axioms;

                    reveal_strlit("contracts");
                    reveal_strlit("system");
                    reveal_strlit("balances");
                    reveal_strlit("StorageKey");
                    reveal_strlit("BalanceLock");
                    reveal_strlit("DispatchError");
                    assert("contracts"@.len() == 9);
                    assert("system"@.len() == 6);
                    assert("balances"@.len() == 8);
                    // the contracts module-scoped override
                    lemma_assoc_first(t.overrides.module_types@, "contracts"@, 0);
                    lemma_assoc_first(
                        t.overrides.module_types@[0].1.types@,
                        "StorageKey"@,
                        0,
                    );
                    // no module-scoped override exists for the other queries
                    assert("balances"@ != "contracts"@);
                    assert("system"@ != "contracts"@);
                    assert(!assoc_has(t.overrides.module_types@, "balances"@)) by {
                        assert(forall|i: int|
                            0 <= i < t.overrides.module_types@.len()
                                ==> (#[trigger] t.overrides.module_types@[i]).0@ != "balances"@);
                    }
                    assert(!assoc_has(t.overrides.module_types@, "system"@)) by {
                        assert(forall|i: int|
                            0 <= i < t.overrides.module_types@.len()
                                ==> (#[trigger] t.overrides.module_types@[i]).0@ != "system"@);
                    }
                    assert forall|v: usize|
                        #[trigger] spec_get(t, "balances"@, "BalanceLock"@, v, "kusama"@) matches Some(
                            m,
                        ) && (if 1019 <= v {
                            points_to(m, "BalanceLockTo212"@)
                        } else {
                            is_balance_lock_struct(m)
                        }) by {
                        lemma_kusama_chain(t.overrides, v);
                    }
                    assert forall|v: usize|
                        #[trigger] spec_get(t, "system"@, "DispatchError"@, v, "kusama"@) matches Some(
                            d,
                        ) && is_dispatch_error_enum(d) by {
                        lemma_kusama_chain(t.overrides, v);
                    }
                    assert forall|v: usize|
                        1019 <= v implies (#[trigger] spec_chain_override(
                        t.overrides,
                        "kusama"@,
                        v,
                        "BalanceLock"@,
                    ) matches Some(p) && points_to(p, "BalanceLockTo212"@)) by {
                        lemma_kusama_chain(t.overrides, v);
                    }
                    assert forall|v: usize|
                        v < 1019 implies (#[trigger] spec_chain_override(
                        t.overrides,
                        "kusama"@,
                        v,
                        "BalanceLock"@,
                    )) is None by {
                        lemma_kusama_chain(t.overrides, v);
                    }
                }
                Ok(t)
            },
            Err(e) => {
                proof {
                    assert(false);
                }
                Err(e)
            },
        }
    }
}

/// A type-pointer name with a known path prefix (`T::` or
/// `<T as Trait>::`) stripped, or `None` when no known prefix opens it.
pub open spec fn spec_remove_prefix(s: Seq<char>) -> Option<Seq<char>> {
    if s.len() >= 3 && s[0] == 'T' && s[1] == ':' && s[2] == ':' {
        Some(s.subrange(3, s.len() as int))
    } else if s.len() >= 14 && s[0] == '<' && s[1] == 'T' && s[2] == ' ' && s[3] == 'a' && s[4]
        == 's' && s[5] == ' ' && s[6] == 'T' && s[7] == 'r' && s[8] == 'a' && s[9] == 'i' && s[10]
        == 't' && s[11] == '>' && s[12] == ':' && s[13] == ':' {
        Some(s.subrange(14, s.len() as int))
    } else {
        None
    }
}

/// Strips a known path prefix from a type-pointer name before the name
/// is dereferenced in the catalogue.
pub fn remove_prefix(s: &str) -> (r: Option<String>)
    ensures
        match r {
            Some(t) => spec_remove_prefix(s@) == Some(t@),
            None => spec_remove_prefix(s@) is None,
        },
{
    let n = s.unicode_len();
    if n >= 3 && s.get_char(0) == 'T' && s.get_char(1) == ':' && s.get_char(2) == ':' {
        Some(s.substring_char(3, n).to_owned())
    } else if n >= 14 && s.get_char(0) == '<' && s.get_char(1) == 'T' && s.get_char(2) == ' '
        && s.get_char(3) == 'a' && s.get_char(4) == 's' && s.get_char(5) == ' ' && s.get_char(6)
        == 'T' && s.get_char(7) == 'r' && s.get_char(8) == 'a' && s.get_char(9) == 'i'
        && s.get_char(10) == 't' && s.get_char(11) == '>' && s.get_char(12) == ':' && s.get_char(
        13,
    ) == ':' {
        Some(s.substring_char(14, n).to_owned())
    } else {
        None
    }
}

/// Override precedence: while a module-scoped override exists for
/// `(module, ty)`, the registry answers with it, whatever the spec
/// version and the chain.
pub proof fn lemma_module_override_precedence(
    t: PolkadotTypes,
    module: Seq<char>,
    ty: Seq<char>,
    v1: usize,
    c1: Seq<char>,
    v2: usize,
    c2: Seq<char>,
)
    requires
        spec_module_override(t.overrides, module, ty) is Some,
    ensures
        spec_get(t, module, ty, v1, c1) == spec_module_override(t.overrides, module, ty),
        spec_get(t, module, ty, v1, c1) == spec_get(t, module, ty, v2, c2),
{
}

} // verus!
