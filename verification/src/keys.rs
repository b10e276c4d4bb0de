//! Slot addressing for the object cache.
//!
//! Keys are grouped in three categories, each with its own base offset into a
//! fixed array of 256 slots: prototypes from 0, constructors from 64,
//! functions from 128.  The offsets leave headroom for new members in every
//! category, and no two categories can ever address the same slot.

use vstd::prelude::*;

verus! {

/// Total number of slots in the cache.
pub const SLOT_COUNT: usize = 256;

/// First slot index reserved for constructor keys.
pub const CONSTRUCTOR_BASE: usize = 64;

/// First slot index reserved for function keys.
pub const FUNCTION_BASE: usize = 128;

/// A cached built-in constructor.
#[derive(Clone, Copy, Debug, PartialEq, Eq, Structural)]
pub enum ConstructorCacheKey {
    MapCtor,
    SetCtor,
    DateCtor,
    ErrorCtor,
    RegExpCtor,
    BufferCtor,
}

/// A cached built-in prototype object.
#[derive(Clone, Copy, Debug, PartialEq, Eq, Structural)]
pub enum PrototypeCacheKey {
    ObjectProto,
    DateProto,
    RegExpProto,
    SetProto,
    MapProto,
    ErrorProto,
}

/// A cached built-in helper function.
#[derive(Clone, Copy, Debug, PartialEq, Eq, Structural)]
pub enum FunctionCacheKey {
    ArrayFrom,
    ArrayBufferIsView,
    GetOwnPropertyDescriptor,
}

/// Any cache key, tagged with its category.
#[derive(Clone, Copy, Debug, PartialEq, Eq, Structural)]
pub enum CacheKey {
    Prototype(PrototypeCacheKey),
    Constructor(ConstructorCacheKey),
    Function(FunctionCacheKey),
}

impl PrototypeCacheKey {
    /// The slot this key addresses.
    pub open spec fn spec_index(self) -> int {
        match self {
            PrototypeCacheKey::ObjectProto => 0,
            PrototypeCacheKey::DateProto => 1,
            PrototypeCacheKey::RegExpProto => 2,
            PrototypeCacheKey::SetProto => 3,
            PrototypeCacheKey::MapProto => 4,
            PrototypeCacheKey::ErrorProto => 5,
        }
    }

    /// Slot index of this key; always below the constructor range.
    pub fn index(self) -> (i: usize)
        ensures
            i == self.spec_index(),
            i < CONSTRUCTOR_BASE,
    {
        match self {
            PrototypeCacheKey::ObjectProto => 0,
            PrototypeCacheKey::DateProto => 1,
            PrototypeCacheKey::RegExpProto => 2,
            PrototypeCacheKey::SetProto => 3,
            PrototypeCacheKey::MapProto => 4,
            PrototypeCacheKey::ErrorProto => 5,
        }
    }
}

impl ConstructorCacheKey {
    /// The slot this key addresses.
    pub open spec fn spec_index(self) -> int {
        match self {
            ConstructorCacheKey::MapCtor => CONSTRUCTOR_BASE as int,
            ConstructorCacheKey::SetCtor => CONSTRUCTOR_BASE + 1,
            ConstructorCacheKey::DateCtor => CONSTRUCTOR_BASE + 2,
            ConstructorCacheKey::ErrorCtor => CONSTRUCTOR_BASE + 3,
            ConstructorCacheKey::RegExpCtor => CONSTRUCTOR_BASE + 4,
            ConstructorCacheKey::BufferCtor => CONSTRUCTOR_BASE + 5,
        }
    }

    /// Slot index of this key; always inside the constructor range.
    pub fn index(self) -> (i: usize)
        ensures
            i == self.spec_index(),
            CONSTRUCTOR_BASE <= i < FUNCTION_BASE,
    {
        match self {
            ConstructorCacheKey::MapCtor => CONSTRUCTOR_BASE,
            ConstructorCacheKey::SetCtor => CONSTRUCTOR_BASE + 1,
            ConstructorCacheKey::DateCtor => CONSTRUCTOR_BASE + 2,
            ConstructorCacheKey::ErrorCtor => CONSTRUCTOR_BASE + 3,
            ConstructorCacheKey::RegExpCtor => CONSTRUCTOR_BASE + 4,
            ConstructorCacheKey::BufferCtor => CONSTRUCTOR_BASE + 5,
        }
    }
}

impl FunctionCacheKey {
    /// The slot this key addresses.
    pub open spec fn spec_index(self) -> int {
        match self {
            FunctionCacheKey::ArrayFrom => FUNCTION_BASE as int,
            FunctionCacheKey::ArrayBufferIsView => FUNCTION_BASE + 1,
            FunctionCacheKey::GetOwnPropertyDescriptor => FUNCTION_BASE + 2,
        }
    }

    /// Slot index of this key; always inside the function range.
    pub fn index(self) -> (i: usize)
        ensures
            i == self.spec_index(),
            FUNCTION_BASE <= i < SLOT_COUNT,
    {
        match self {
            FunctionCacheKey::ArrayFrom => FUNCTION_BASE,
            FunctionCacheKey::ArrayBufferIsView => FUNCTION_BASE + 1,
            FunctionCacheKey::GetOwnPropertyDescriptor => FUNCTION_BASE + 2,
        }
    }
}

impl CacheKey {
    /// The slot this key addresses, whatever its category.
    pub open spec fn spec_index(self) -> int {
        match self {
            CacheKey::Prototype(k) => k.spec_index(),
            CacheKey::Constructor(k) => k.spec_index(),
            CacheKey::Function(k) => k.spec_index(),
        }
    }

    /// Slot index of this key; always in bounds of the slot array.
    pub fn index(self) -> (i: usize)
        ensures
            i == self.spec_index(),
            i < SLOT_COUNT,
    {
        match self {
            CacheKey::Prototype(k) => k.index(),
            CacheKey::Constructor(k) => k.index(),
            CacheKey::Function(k) => k.index(),
        }
    }
}

/// Collision freedom of the slot layout: distinct keys, in the same category
/// or across categories, never address the same slot.
pub proof fn lemma_key_index_injective(a: CacheKey, b: CacheKey)
    ensures
        a.spec_index() == b.spec_index() ==> a == b,
{
}

} // verus!
