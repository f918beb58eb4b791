//! The machine that executes a transaction.
use crate::data::{DataView, EVMData};
use crate::db::Database;
use crate::inspector::{Event, Inspector};
use crate::interpreter::Interpreter;
use crate::journal_model::JournalView;
use crate::journaled_state::JournaledState;
use crate::models::{Env, ExecutionResult};
use crate::precompiles::{precompile_table, precompiles_len};
use crate::run_model::Rules;
use crate::spec_id::{Spec, SpecId};
use crate::state::State;
use std::marker::PhantomData;
use vstd::prelude::*;

mod calls;
mod frames;
mod host_impl;
mod transaction;

verus! {

/// Something that does a transaction.
pub trait Transact {
    /// Do transaction.
    /// Return Return, Output for call or Address if we are creating contract, gas spend, gas
    /// refunded, State that needs to be applied.
    fn transact(&mut self) -> (ExecutionResult, State);
}

/// Who watches a transaction.
struct Watch<T> {
    by: T,
}

/// The machine that executes a transaction: under the rules of the fork `GSPEC`, with accounts from
/// `DB`, running code on the interpreter `I`, and watched by the inspector if `INSPECT`.
#[verifier::reject_recursive_types(GSPEC)]
#[verifier::reject_recursive_types(DB)]
#[verifier::reject_recursive_types(I)]
pub struct EVMImpl<'a, GSPEC: Spec, DB: Database, I: Interpreter, const INSPECT: bool> {
    data: EVMData<'a, DB>,
    precompiles: revm_precompiles::Precompiles,
    inspector: Watch<&'a mut dyn Inspector<DB, I>>,
    _phantomdata: PhantomData<GSPEC>,
}

/// The value of an [`EVMImpl`].
#[verifier::reject_recursive_types(DB)]
#[verifier::reject_recursive_types(I)]
pub struct EvmView<DB: Database, I: Interpreter> {
    pub data: DataView<DB>,
    /// The addresses of the precompiles and what is behind them.
    pub precompiles: Map<Seq<u8>, revm_precompiles::Precompile>,
    /// The stories that the inspector admits.
    pub inspector: Set<Seq<Event<DB, I>>>,
}

/// The stories that an inspector admits.
spec fn stories<'a, DB: Database, I: Interpreter>(
    watch: Watch<&'a mut dyn Inspector<DB, I>>,
) -> Set<Seq<Event<DB, I>>> {
    Set::new(|told: Seq<Event<DB, I>>| watch.by.admits(told))
}

impl<'a, GSPEC: Spec, DB: Database, I: Interpreter, const INSPECT: bool> View for EVMImpl<
    'a,
    GSPEC,
    DB,
    I,
    INSPECT,
> {
    type V = EvmView<DB, I>;

    closed spec fn view(&self) -> EvmView<DB, I> {
        EvmView {
            data: self.data@,
            precompiles: precompile_table(self.precompiles),
            inspector: stories(self.inspector),
        }
    }
}

impl<'a, GSPEC: Spec, DB: Database, I: Interpreter, const INSPECT: bool> EVMImpl<
    'a,
    GSPEC,
    DB,
    I,
    INSPECT,
> {
    /// What calls and creates of this machine go by, under the rules of a fork.
    pub open spec fn rules(&self, spec_id: SpecId) -> Rules {
        Rules { watched: INSPECT, precompiles: self@.precompiles, spec_id }
    }

    /// A machine with no accounts loaded.
    pub fn new(
        db: &'a mut DB,
        env: &'a mut Env,
        inspector: &'a mut dyn Inspector<DB, I>,
        precompiles: revm_precompiles::Precompiles,
    ) -> (r: Self)
        ensures
            r@.precompiles == precompile_table(precompiles),
            forall|told: Seq<Event<DB, I>>| #[trigger]
                r@.inspector.contains(told) <==> old(inspector).admits(told),
            r@.data == (DataView {
                env: *old(env),
                journal: JournalView::empty(
                    !GSPEC::id().includes(SpecId::SPURIOUS_DRAGON),
                    precompile_table(precompiles).dom().len(),
                ),
                db: *old(db),
                error: None,
            }),
    {
        let journaled_state = if GSPEC::enabled(SpecId::SPURIOUS_DRAGON) {
            JournaledState::new(precompiles_len(&precompiles))
        } else {
            JournaledState::new_legacy(precompiles_len(&precompiles))
        };
        let inspector = Watch { by: inspector };
        EVMImpl {
            data: EVMData { env, journaled_state, db, error: None },
            precompiles,
            inspector,
            _phantomdata: PhantomData,
        }
    }
}

} // verus!
