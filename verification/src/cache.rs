//! Process-wide cache of pinned engine value handles.
//!
//! The engine itself (its globals, its reference counting) is an opaque
//! collaborator: a handle is carried here as a plain identifier, and every
//! retain or release the engine must perform is returned to the caller as an
//! explicit [`EngineOp`], in the order the engine must apply them.  The cache
//! moves each resolved value into its slot without touching its reference
//! count (an ownership transfer, not a borrow), takes one extra reference to
//! the owning context, and on teardown releases every pinned value exactly
//! once before releasing that context reference.
//!
//! The state machine is `Uninitialized` → `Initialized` → `Cleared`, with
//! `Cleared` terminal for a given cell.  Initializing twice, or reading or
//! clearing before initialization, is a caller error and is reported, never
//! ignored.  Reads never mutate slot contents, so any number of readers may
//! look up slots at once; each read hands out a freshly duplicated,
//! independently owned handle.

use vstd::prelude::*;
use vstd::multiset::Multiset;
use crate::keys::{CacheKey, ConstructorCacheKey, FunctionCacheKey, PrototypeCacheKey, SLOT_COUNT};

verus! {

/// One reference-count action the engine must apply, in order.
#[derive(Clone, Copy, Debug, PartialEq, Eq, Structural)]
pub enum EngineOp {
    /// Increment the reference count of a value handle.
    DupValue(u64),
    /// Decrement the reference count of a value handle.
    FreeValue(u64),
    /// Increment the reference count of a context handle.
    DupContext(u64),
    /// Decrement the reference count of a context handle.
    FreeContext(u64),
}

/// A caller-contract violation on the cache.
#[derive(Clone, Copy, Debug, PartialEq, Eq, Structural)]
pub enum CacheError {
    /// `init` was called on a cell that already left the uninitialized state.
    AlreadyInitialized,
    /// `get` or `clear` was called before a successful `init`.
    NotInitialized,
}

/// The engine values resolved from the global environment for the cache, one
/// owned handle per cache key.
pub struct ResolvedGlobals {
    pub map_ctor: u64,
    pub set_ctor: u64,
    pub date_ctor: u64,
    pub error_ctor: u64,
    pub regexp_ctor: u64,
    pub buffer_ctor: u64,
    pub object_proto: u64,
    pub date_proto: u64,
    pub regexp_proto: u64,
    pub set_proto: u64,
    pub map_proto: u64,
    pub error_proto: u64,
    pub array_from_fn: u64,
    pub array_buffer_is_view_fn: u64,
    pub get_own_property_descriptor_fn: u64,
}

impl ResolvedGlobals {
    /// The handle that belongs in the slot of `key`.
    pub open spec fn spec_value_for(self, key: CacheKey) -> u64 {
        match key {
            CacheKey::Prototype(PrototypeCacheKey::ObjectProto) => self.object_proto,
            CacheKey::Prototype(PrototypeCacheKey::DateProto) => self.date_proto,
            CacheKey::Prototype(PrototypeCacheKey::RegExpProto) => self.regexp_proto,
            CacheKey::Prototype(PrototypeCacheKey::SetProto) => self.set_proto,
            CacheKey::Prototype(PrototypeCacheKey::MapProto) => self.map_proto,
            CacheKey::Prototype(PrototypeCacheKey::ErrorProto) => self.error_proto,
            CacheKey::Constructor(ConstructorCacheKey::MapCtor) => self.map_ctor,
            CacheKey::Constructor(ConstructorCacheKey::SetCtor) => self.set_ctor,
            CacheKey::Constructor(ConstructorCacheKey::DateCtor) => self.date_ctor,
            CacheKey::Constructor(ConstructorCacheKey::ErrorCtor) => self.error_ctor,
            CacheKey::Constructor(ConstructorCacheKey::RegExpCtor) => self.regexp_ctor,
            CacheKey::Constructor(ConstructorCacheKey::BufferCtor) => self.buffer_ctor,
            CacheKey::Function(FunctionCacheKey::ArrayFrom) => self.array_from_fn,
            CacheKey::Function(FunctionCacheKey::ArrayBufferIsView) => self.array_buffer_is_view_fn,
            CacheKey::Function(FunctionCacheKey::GetOwnPropertyDescriptor) => (
                self.get_own_property_descriptor_fn
            ),
        }
    }

    /// Whether slot `i` is one a key addresses.
    pub open spec fn spec_slot_used(i: int) -> bool {
        exists|k: CacheKey| k.spec_index() == i
    }

    /// The full slot array `init` builds: each key's slot holds its resolved
    /// handle, every other slot stays empty.
    pub open spec fn spec_slots(self) -> Seq<Option<u64>> {
        Seq::new(SLOT_COUNT as nat, |i: int|
            if exists|k: CacheKey| k.spec_index() == i {
                Some(self.spec_value_for(choose|k: CacheKey| k.spec_index() == i))
            } else {
                None
            })
    }
}

/// The initialized cache: one duplicated context reference and the fixed
/// slot array of pinned value handles.
#[derive(Debug)]
pub struct ObjectCache {
    /// The owning engine context, held through one extra reference.
    pub ctx: u64,
    /// The slot array; a key's slot holds the handle pinned for it.
    pub slots: Vec<Option<u64>>,
}

impl ObjectCache {
    /// Well-formedness: the slot array has its fixed size and every key's
    /// slot is occupied.
    pub open spec fn wf(self) -> bool {
        &&& self.slots@.len() == SLOT_COUNT
        &&& forall|k: CacheKey| (#[trigger] self.slots@[k.spec_index()]) is Some
    }

    /// The handle pinned for `key`.
    pub open spec fn spec_value(self, key: CacheKey) -> u64 {
        self.slots@[key.spec_index()]->Some_0
    }

    /// Look up `key` and hand out a fresh reference to its pinned handle.
    /// The slot itself is only observed, never changed; the single engine op
    /// duplicates the handle so the caller owns its copy independently of the
    /// cache.
    pub fn get_value(&self, key: CacheKey) -> (r: (u64, Vec<EngineOp>))
        requires
            self.wf(),
        ensures
            r.0 == self.spec_value(key),
            r.1@ == seq![EngineOp::DupValue(r.0)],
    {
        let i = key.index();
        assert(self.slots@[key.spec_index()] is Some);
        let h = self.slots[i].unwrap();
        let mut ops: Vec<EngineOp> = Vec::new();
        ops.push(EngineOp::DupValue(h));
        assert(ops@ =~= seq![EngineOp::DupValue(h)]);
        (h, ops)
    }

    /// Look up a helper function's pinned handle.
    pub fn get_function(&self, key: FunctionCacheKey) -> (r: (u64, Vec<EngineOp>))
        requires
            self.wf(),
        ensures
            r.0 == self.spec_value(CacheKey::Function(key)),
            r.1@ == seq![EngineOp::DupValue(r.0)],
    {
        self.get_value(CacheKey::Function(key))
    }

    /// Look up a prototype's pinned handle.
    pub fn get_prototype(&self, key: PrototypeCacheKey) -> (r: (u64, Vec<EngineOp>))
        requires
            self.wf(),
        ensures
            r.0 == self.spec_value(CacheKey::Prototype(key)),
            r.1@ == seq![EngineOp::DupValue(r.0)],
    {
        self.get_value(CacheKey::Prototype(key))
    }

    /// Look up a constructor's pinned handle.
    pub fn get_constructor(&self, key: ConstructorCacheKey) -> (r: (u64, Vec<EngineOp>))
        requires
            self.wf(),
        ensures
            r.0 == self.spec_value(CacheKey::Constructor(key)),
            r.1@ == seq![EngineOp::DupValue(r.0)],
    {
        self.get_value(CacheKey::Constructor(key))
    }
}

/// The cache's lifecycle states.  `Cleared` is terminal: a cleared cell is
/// never re-initialized, a fresh cell is.
pub enum CacheCell {
    Uninitialized,
    Initialized(ObjectCache),
    Cleared,
}

impl CacheCell {
    /// Well-formedness of whatever state the cell is in.
    pub open spec fn wf(self) -> bool {
        match self {
            CacheCell::Initialized(c) => c.wf(),
            _ => true,
        }
    }

    /// Read access to the initialized cache; a caller error in any other
    /// state.
    pub fn get(&self) -> (r: Result<&ObjectCache, CacheError>)
        ensures
            match self {
                CacheCell::Initialized(c) => r matches Ok(rc) && *rc == c,
                _ => r matches Err(e) && e == CacheError::NotInitialized,
            },
    {
        match self {
            CacheCell::Initialized(c) => Ok(c),
            _ => Err(CacheError::NotInitialized),
        }
    }
}

/// The release plan for a slot array: one `FreeValue` per occupied slot, in
/// slot order.
pub open spec fn spec_release_plan(slots: Seq<Option<u64>>) -> Seq<EngineOp>
    decreases slots.len(),
{
    if slots.len() == 0 {
        Seq::empty()
    } else {
        spec_release_plan(slots.drop_last()) + (match slots.last() {
            Some(v) => seq![EngineOp::FreeValue(v)],
            None => Seq::empty(),
        })
    }
}

/// Initialize `cell` from the resolved globals: move each resolved handle
/// into its key's slot without changing its reference count, and take one
/// extra reference to the owning context `ctx` (the single engine op).  Valid
/// only on an uninitialized cell; on any other cell it fails, changes
/// nothing, and asks the engine for nothing.
pub fn init(cell: &mut CacheCell, ctx: u64, globals: &ResolvedGlobals)
    -> (r: (Result<(), CacheError>, Vec<EngineOp>))
    requires
        old(cell).wf(),
    ensures
        final(cell).wf(),
        match *old(cell) {
            CacheCell::Uninitialized => {
                &&& r.0 is Ok
                &&& r.1@ == seq![EngineOp::DupContext(ctx)]
                &&& *final(cell) matches CacheCell::Initialized(c)
                    && c.ctx == ctx
                    && c.slots@ == globals.spec_slots()
            },
            _ => {
                &&& r.0 == Err::<(), CacheError>(CacheError::AlreadyInitialized)
                &&& r.1@ == Seq::<EngineOp>::empty()
                &&& *final(cell) == *old(cell)
            },
        },
{
    match cell {
        CacheCell::Uninitialized => {},
        _ => {
            return (Err(CacheError::AlreadyInitialized), Vec::new());
        },
    }
    let mut slots: Vec<Option<u64>> = Vec::new();
    let mut i: usize = 0;
    while i < SLOT_COUNT
        invariant
            i <= SLOT_COUNT,
            slots@.len() == i,
            forall|j: int| 0 <= j < i ==> slots@[j] is None,
        decreases SLOT_COUNT - i,
    {
        slots.push(None);
        i = i + 1;
    }

    slots.set(CacheKey::Constructor(ConstructorCacheKey::MapCtor).index(),
        Some(globals.map_ctor));
    slots.set(CacheKey::Constructor(ConstructorCacheKey::SetCtor).index(),
        Some(globals.set_ctor));
    slots.set(CacheKey::Constructor(ConstructorCacheKey::ErrorCtor).index(),
        Some(globals.error_ctor));
    slots.set(CacheKey::Constructor(ConstructorCacheKey::RegExpCtor).index(),
        Some(globals.regexp_ctor));
    slots.set(CacheKey::Constructor(ConstructorCacheKey::DateCtor).index(),
        Some(globals.date_ctor));
    slots.set(CacheKey::Constructor(ConstructorCacheKey::BufferCtor).index(),
        Some(globals.buffer_ctor));

    slots.set(CacheKey::Function(FunctionCacheKey::ArrayFrom).index(),
        Some(globals.array_from_fn));
    slots.set(CacheKey::Function(FunctionCacheKey::GetOwnPropertyDescriptor).index(),
        Some(globals.get_own_property_descriptor_fn));
    slots.set(CacheKey::Function(FunctionCacheKey::ArrayBufferIsView).index(),
        Some(globals.array_buffer_is_view_fn));

    slots.set(CacheKey::Prototype(PrototypeCacheKey::MapProto).index(),
        Some(globals.map_proto));
    slots.set(CacheKey::Prototype(PrototypeCacheKey::SetProto).index(),
        Some(globals.set_proto));
    slots.set(CacheKey::Prototype(PrototypeCacheKey::ErrorProto).index(),
        Some(globals.error_proto));
    slots.set(CacheKey::Prototype(PrototypeCacheKey::RegExpProto).index(),
        Some(globals.regexp_proto));
    slots.set(CacheKey::Prototype(PrototypeCacheKey::DateProto).index(),
        Some(globals.date_proto));
    slots.set(CacheKey::Prototype(PrototypeCacheKey::ObjectProto).index(),
        Some(globals.object_proto));

    assert(slots@ =~= globals.spec_slots()) by {
        assert forall|j: int| 0 <= j < SLOT_COUNT implies
            slots@[j] == globals.spec_slots()[j] by {
            lemma_slot_contents(*globals, slots@, j);
        }
    }

    let cache = ObjectCache { ctx, slots };
    assert(cache.wf()) by {
        assert forall|k: CacheKey| (#[trigger] cache.slots@[k.spec_index()]) is Some by {
            assert(ResolvedGlobals::spec_slot_used(k.spec_index()));
        }
    }
    *cell = CacheCell::Initialized(cache);
    let mut ops: Vec<EngineOp> = Vec::new();
    ops.push(EngineOp::DupContext(ctx));
    assert(ops@ =~= seq![EngineOp::DupContext(ctx)]);
    (Ok(()), ops)
}

/// Helper for `init`: at every index the built array agrees with the spec
/// array, by cases on which key (if any) addresses the index.
proof fn lemma_slot_contents(globals: ResolvedGlobals, slots: Seq<Option<u64>>, j: int)
    requires
        0 <= j < SLOT_COUNT,
        slots.len() == SLOT_COUNT,
        forall|k: CacheKey| #[trigger] slots[k.spec_index()]
            == Some(globals.spec_value_for(k)),
        forall|i: int| 0 <= i < SLOT_COUNT && !ResolvedGlobals::spec_slot_used(i)
            ==> #[trigger] slots[i] is None,
    ensures
        slots[j] == globals.spec_slots()[j],
{
    if ResolvedGlobals::spec_slot_used(j) {
        let k = choose|k: CacheKey| k.spec_index() == j;
        let kc = choose|kc: CacheKey| kc.spec_index() == j;
        crate::keys::lemma_key_index_injective(k, kc);
        assert(slots[j] == Some(globals.spec_value_for(k)));
    }
}

/// Tear the cache down: valid only on an initialized cell.  The engine ops
/// release each pinned handle exactly once (one `FreeValue` per occupied
/// slot, in slot order) and then drop the extra context reference; the cell
/// becomes `Cleared`, and the dropped storage is never read again.  On a cell
/// in any other state it fails, changes nothing, and asks the engine for
/// nothing.
pub fn clear(cell: &mut CacheCell) -> (r: (Result<(), CacheError>, Vec<EngineOp>))
    ensures
        match *old(cell) {
            CacheCell::Initialized(c) => {
                &&& r.0 is Ok
                &&& r.1@ == spec_release_plan(c.slots@) + seq![EngineOp::FreeContext(c.ctx)]
                &&& *final(cell) is Cleared
            },
            _ => {
                &&& r.0 == Err::<(), CacheError>(CacheError::NotInitialized)
                &&& r.1@ == Seq::<EngineOp>::empty()
                &&& *final(cell) == *old(cell)
            },
        },
{
    let ops = match &*cell {
        CacheCell::Initialized(cache) => {
            let mut ops: Vec<EngineOp> = Vec::new();
            let mut i: usize = 0;
            while i < cache.slots.len()
                invariant
                    i <= cache.slots@.len(),
                    ops@ == spec_release_plan(cache.slots@.subrange(0, i as int)),
                decreases cache.slots@.len() - i,
            {
                proof {
                    let pre = cache.slots@.subrange(0, i as int);
                    let post = cache.slots@.subrange(0, i + 1);
                    assert(post.drop_last() =~= pre);
                    assert(post.last() == cache.slots@[i as int]);
                }
                match cache.slots[i] {
                    Some(v) => {
                        ops.push(EngineOp::FreeValue(v));
                    },
                    None => {},
                }
                i = i + 1;
            }
            assert(cache.slots@.subrange(0, cache.slots@.len() as int) =~= cache.slots@);
            ops.push(EngineOp::FreeContext(cache.ctx));
            assert(ops@ =~= spec_release_plan(cache.slots@)
                + seq![EngineOp::FreeContext(cache.ctx)]);
            ops
        },
        _ => {
            return (Err(CacheError::NotInitialized), Vec::new());
        },
    };
    *cell = CacheCell::Cleared;
    (Ok(()), ops)
}

/// The handles pinned in a slot array, with multiplicity.
pub open spec fn spec_pinned(slots: Seq<Option<u64>>) -> Multiset<u64>
    decreases slots.len(),
{
    if slots.len() == 0 {
        Multiset::empty()
    } else {
        spec_pinned(slots.drop_last()).add(match slots.last() {
            Some(v) => Multiset::singleton(v),
            None => Multiset::empty(),
        })
    }
}

/// The value handles a sequence of engine ops releases, with multiplicity.
pub open spec fn spec_freed_values(ops: Seq<EngineOp>) -> Multiset<u64>
    decreases ops.len(),
{
    if ops.len() == 0 {
        Multiset::empty()
    } else {
        spec_freed_values(ops.drop_last()).add(match ops.last() {
            EngineOp::FreeValue(v) => Multiset::singleton(v),
            _ => Multiset::empty(),
        })
    }
}

/// Net effect of a sequence of engine ops on the reference count of the
/// context handle `c`.
pub open spec fn spec_ctx_delta(ops: Seq<EngineOp>, c: u64) -> int
    decreases ops.len(),
{
    if ops.len() == 0 {
        0
    } else {
        spec_ctx_delta(ops.drop_last(), c) + (match ops.last() {
            EngineOp::DupContext(x) => if x == c { 1int } else { 0 },
            EngineOp::FreeContext(x) => if x == c { -1int } else { 0 },
            _ => 0,
        })
    }
}

/// No use after free, no double free: the release plan of [`clear`] frees
/// each handle pinned in the slots exactly as often as it is pinned — every
/// pin is undone once, and nothing else is released.
pub proof fn lemma_release_plan_frees_pins_once(slots: Seq<Option<u64>>)
    ensures
        spec_freed_values(spec_release_plan(slots)) == spec_pinned(slots),
    decreases slots.len(),
{
    if slots.len() == 0 {
    } else {
        lemma_release_plan_frees_pins_once(slots.drop_last());
        let head = spec_release_plan(slots.drop_last());
        match slots.last() {
            Some(v) => {
                let whole = head + seq![EngineOp::FreeValue(v)];
                assert(whole.drop_last() =~= head);
                assert(spec_freed_values(whole)
                    == spec_freed_values(head).add(Multiset::singleton(v)));
            },
            None => {
                assert(head + Seq::<EngineOp>::empty() =~= head);
            },
        }
    }
}

/// A release plan touches value handles only, never a context's count.
pub proof fn lemma_release_plan_leaves_context(slots: Seq<Option<u64>>, c: u64)
    ensures
        spec_ctx_delta(spec_release_plan(slots), c) == 0,
    decreases slots.len(),
{
    if slots.len() == 0 {
    } else {
        lemma_release_plan_leaves_context(slots.drop_last(), c);
        let head = spec_release_plan(slots.drop_last());
        match slots.last() {
            Some(v) => {
                let whole = head + seq![EngineOp::FreeValue(v)];
                assert(whole.drop_last() =~= head);
            },
            None => {
                assert(head + Seq::<EngineOp>::empty() =~= head);
            },
        }
    }
}

/// Over a full lifecycle — the ops of a successful [`init`] followed by the
/// ops of a successful [`clear`] — the extra reference taken to the owning
/// context is given back exactly once: the net effect on the context's
/// reference count is zero.
pub proof fn lemma_lifecycle_context_balanced(slots: Seq<Option<u64>>, ctx: u64)
    ensures
        spec_ctx_delta(
            seq![EngineOp::DupContext(ctx)]
                + (spec_release_plan(slots) + seq![EngineOp::FreeContext(ctx)]),
            ctx,
        ) == 0,
{
    let dup = seq![EngineOp::DupContext(ctx)];
    let plan = spec_release_plan(slots);
    let whole = dup + (plan + seq![EngineOp::FreeContext(ctx)]);
    assert(dup.drop_last() =~= Seq::<EngineOp>::empty());
    assert(dup.len() == 1);
    assert(dup.last() == EngineOp::DupContext(ctx));
    assert(spec_ctx_delta(dup.drop_last(), ctx) == 0);
    assert(spec_ctx_delta(dup, ctx) == 1);
    lemma_ctx_delta_concat(dup, plan, ctx);
    lemma_release_plan_leaves_context(slots, ctx);
    assert(spec_ctx_delta(dup + plan, ctx) == 1);
    assert(whole.len() > 0);
    assert(whole.last() == EngineOp::FreeContext(ctx));
    assert(whole.drop_last() =~= dup + plan);
    assert(spec_ctx_delta(whole, ctx)
        == spec_ctx_delta(whole.drop_last(), ctx) + -1);
}

/// The context delta of a concatenation is the sum of the deltas.
pub proof fn lemma_ctx_delta_concat(a: Seq<EngineOp>, b: Seq<EngineOp>, c: u64)
    ensures
        spec_ctx_delta(a + b, c) == spec_ctx_delta(a, c) + spec_ctx_delta(b, c),
    decreases b.len(),
{
    if b.len() == 0 {
        assert(a + b =~= a);
    } else {
        lemma_ctx_delta_concat(a, b.drop_last(), c);
        assert((a + b).drop_last() =~= a + b.drop_last());
        assert((a + b).last() == b.last());
    }
}

} // verus!
