//! The forks of the protocol.
use std::marker::PhantomData;
use vstd::prelude::*;

verus! {

/// The forks, in the order in which they came.
#[allow(non_camel_case_types)]
#[derive(Clone, Copy, Debug, PartialEq, Eq, Structural)]
pub enum SpecId {
    FRONTIER,
    FRONTIER_THAWING,
    HOMESTEAD,
    DAO_FORK,
    TANGERINE,
    SPURIOUS_DRAGON,
    BYZANTIUM,
    CONSTANTINOPLE,
    PETERSBURG,
    ISTANBUL,
    MUIR_GLACIER,
    BERLIN,
    LONDON,
    ARROW_GLACIER,
    GRAY_GLACIER,
    MERGE,
    LATEST,
}

impl SpecId {
    /// The place of a fork among the forks.
    pub open spec fn rank(self) -> int {
        match self {
            SpecId::FRONTIER => 0,
            SpecId::FRONTIER_THAWING => 1,
            SpecId::HOMESTEAD => 2,
            SpecId::DAO_FORK => 3,
            SpecId::TANGERINE => 4,
            SpecId::SPURIOUS_DRAGON => 5,
            SpecId::BYZANTIUM => 6,
            SpecId::CONSTANTINOPLE => 7,
            SpecId::PETERSBURG => 8,
            SpecId::ISTANBUL => 9,
            SpecId::MUIR_GLACIER => 10,
            SpecId::BERLIN => 11,
            SpecId::LONDON => 12,
            SpecId::ARROW_GLACIER => 13,
            SpecId::GRAY_GLACIER => 14,
            SpecId::MERGE => 15,
            SpecId::LATEST => 16,
        }
    }

    /// Whether the rules of `fork` hold in this one: it is not later.
    pub open spec fn includes(self, fork: SpecId) -> bool {
        self.rank() >= fork.rank()
    }

    fn position(self) -> (r: u8)
        ensures
            r == self.rank(),
    {
        match self {
            SpecId::FRONTIER => 0,
            SpecId::FRONTIER_THAWING => 1,
            SpecId::HOMESTEAD => 2,
            SpecId::DAO_FORK => 3,
            SpecId::TANGERINE => 4,
            SpecId::SPURIOUS_DRAGON => 5,
            SpecId::BYZANTIUM => 6,
            SpecId::CONSTANTINOPLE => 7,
            SpecId::PETERSBURG => 8,
            SpecId::ISTANBUL => 9,
            SpecId::MUIR_GLACIER => 10,
            SpecId::BERLIN => 11,
            SpecId::LONDON => 12,
            SpecId::ARROW_GLACIER => 13,
            SpecId::GRAY_GLACIER => 14,
            SpecId::MERGE => 15,
            SpecId::LATEST => 16,
        }
    }
}

/// A fork as a type.
pub trait Spec: Sized {
    /// Whether calls are static: nothing may be changed.
    const IS_STATIC_CALL: bool;

    /// The fork.
    spec fn id() -> SpecId;

    /// The fork.
    fn spec_id() -> (r: SpecId)
        ensures
            r == Self::id(),
    ;

    /// Whether the rules of the fork `spec_id` are in force.
    fn enabled(spec_id: SpecId) -> (r: bool)
        ensures
            r == Self::id().includes(spec_id),
    {
        Self::spec_id().position() >= spec_id.position()
    }
}

/// Frontier.
pub struct FrontierSpec;

impl Spec for FrontierSpec {
    const IS_STATIC_CALL: bool = false;

    open spec fn id() -> SpecId {
        SpecId::FRONTIER
    }

    fn spec_id() -> (r: SpecId) {
        SpecId::FRONTIER
    }
}

/// Homestead.
pub struct HomesteadSpec;

impl Spec for HomesteadSpec {
    const IS_STATIC_CALL: bool = false;

    open spec fn id() -> SpecId {
        SpecId::HOMESTEAD
    }

    fn spec_id() -> (r: SpecId) {
        SpecId::HOMESTEAD
    }
}

/// Spurious Dragon.
pub struct SpuriousDragonSpec;

impl Spec for SpuriousDragonSpec {
    const IS_STATIC_CALL: bool = false;

    open spec fn id() -> SpecId {
        SpecId::SPURIOUS_DRAGON
    }

    fn spec_id() -> (r: SpecId) {
        SpecId::SPURIOUS_DRAGON
    }
}

/// Istanbul.
pub struct IstanbulSpec;

impl Spec for IstanbulSpec {
    const IS_STATIC_CALL: bool = false;

    open spec fn id() -> SpecId {
        SpecId::ISTANBUL
    }

    fn spec_id() -> (r: SpecId) {
        SpecId::ISTANBUL
    }
}

/// Berlin.
pub struct BerlinSpec;

impl Spec for BerlinSpec {
    const IS_STATIC_CALL: bool = false;

    open spec fn id() -> SpecId {
        SpecId::BERLIN
    }

    fn spec_id() -> (r: SpecId) {
        SpecId::BERLIN
    }
}

/// London.
pub struct LondonSpec;

impl Spec for LondonSpec {
    const IS_STATIC_CALL: bool = false;

    open spec fn id() -> SpecId {
        SpecId::LONDON
    }

    fn spec_id() -> (r: SpecId) {
        SpecId::LONDON
    }
}

/// The latest fork.
pub struct LatestSpec;

impl Spec for LatestSpec {
    const IS_STATIC_CALL: bool = false;

    open spec fn id() -> SpecId {
        SpecId::LATEST
    }

    fn spec_id() -> (r: SpecId) {
        SpecId::LATEST
    }
}

/// The rules of a fork for calls that are static.
pub struct StaticSpec<SPEC: Spec> {
    _phantomdata: PhantomData<SPEC>,
}

impl<SPEC: Spec> Spec for StaticSpec<SPEC> {
    const IS_STATIC_CALL: bool = true;

    open spec fn id() -> SpecId {
        SPEC::id()
    }

    fn spec_id() -> (r: SpecId) {
        SPEC::spec_id()
    }
}

} // verus!
