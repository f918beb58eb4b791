//! What holds of the order of the forks.
use crate::spec_id::{
    BerlinSpec, FrontierSpec, HomesteadSpec, IstanbulSpec, LatestSpec, LondonSpec, Spec, SpecId,
    SpuriousDragonSpec, StaticSpec,
};
use vstd::prelude::*;

verus! {

/// The forks are in one line: each includes itself and what those before it include, and of two
/// different forks exactly one includes the other.
pub proof fn forks_are_in_line(a: SpecId, b: SpecId, c: SpecId)
    ensures
        a.includes(a),
        a.includes(b) || b.includes(a),
        a.includes(b) && b.includes(a) ==> a == b,
        a.includes(b) && b.includes(c) ==> a.includes(c),
{
}

/// Each fork is followed by the next: what the next includes is itself and what this one includes.
pub proof fn forks_follow_each_other(fork: SpecId)
    ensures
        fork.includes(SpecId::FRONTIER),
        SpecId::LATEST.includes(fork),
        SpecId::FRONTIER_THAWING.includes(fork) <==> fork == SpecId::FRONTIER_THAWING
            || SpecId::FRONTIER.includes(fork),
        SpecId::HOMESTEAD.includes(fork) <==> fork == SpecId::HOMESTEAD
            || SpecId::FRONTIER_THAWING.includes(fork),
        SpecId::DAO_FORK.includes(fork) <==> fork == SpecId::DAO_FORK
            || SpecId::HOMESTEAD.includes(fork),
        SpecId::TANGERINE.includes(fork) <==> fork == SpecId::TANGERINE
            || SpecId::DAO_FORK.includes(fork),
        SpecId::SPURIOUS_DRAGON.includes(fork) <==> fork == SpecId::SPURIOUS_DRAGON
            || SpecId::TANGERINE.includes(fork),
        SpecId::BYZANTIUM.includes(fork) <==> fork == SpecId::BYZANTIUM
            || SpecId::SPURIOUS_DRAGON.includes(fork),
        SpecId::CONSTANTINOPLE.includes(fork) <==> fork == SpecId::CONSTANTINOPLE
            || SpecId::BYZANTIUM.includes(fork),
        SpecId::PETERSBURG.includes(fork) <==> fork == SpecId::PETERSBURG
            || SpecId::CONSTANTINOPLE.includes(fork),
        SpecId::ISTANBUL.includes(fork) <==> fork == SpecId::ISTANBUL
            || SpecId::PETERSBURG.includes(fork),
        SpecId::MUIR_GLACIER.includes(fork) <==> fork == SpecId::MUIR_GLACIER
            || SpecId::ISTANBUL.includes(fork),
        SpecId::BERLIN.includes(fork) <==> fork == SpecId::BERLIN || SpecId::MUIR_GLACIER.includes(
            fork,
        ),
        SpecId::LONDON.includes(fork) <==> fork == SpecId::LONDON || SpecId::BERLIN.includes(fork),
        SpecId::ARROW_GLACIER.includes(fork) <==> fork == SpecId::ARROW_GLACIER
            || SpecId::LONDON.includes(fork),
        SpecId::GRAY_GLACIER.includes(fork) <==> fork == SpecId::GRAY_GLACIER
            || SpecId::ARROW_GLACIER.includes(fork),
        SpecId::MERGE.includes(fork) <==> fork == SpecId::MERGE || SpecId::GRAY_GLACIER.includes(
            fork,
        ),
        SpecId::LATEST.includes(fork) <==> fork == SpecId::LATEST || SpecId::MERGE.includes(fork),
{
}

/// A fork as a type stands for the fork of its name, and its static variant for the same fork.
pub proof fn fork_types_stand_for_forks<SPEC: Spec>()
    ensures
        FrontierSpec::id() == SpecId::FRONTIER,
        HomesteadSpec::id() == SpecId::HOMESTEAD,
        SpuriousDragonSpec::id() == SpecId::SPURIOUS_DRAGON,
        IstanbulSpec::id() == SpecId::ISTANBUL,
        BerlinSpec::id() == SpecId::BERLIN,
        LondonSpec::id() == SpecId::LONDON,
        LatestSpec::id() == SpecId::LATEST,
        StaticSpec::<SPEC>::id() == SPEC::id(),
{
}

} // verus!
