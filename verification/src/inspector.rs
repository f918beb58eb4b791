//! An inspector watches a transaction, and may step in.
use crate::data::{DataView, EVMData};
use crate::db::Database;
use crate::frames_model::End;
use crate::gas::Gas;
use crate::interpreter::Interpreter;
use crate::journal_laws::extends_itself;
use crate::models::{CallInputs, CreateInputs, LogView, Return};
use crate::primitives::{H160, H256};
use vstd::prelude::*;

verus! {

/// Something that an inspector is told, with what it answers and what it makes of what it is shown.
pub enum Event<DB: Database, I: Interpreter> {
    /// A machine is about to run.
    Initialize {
        machine: I,
        data: DataView<DB>,
        is_static: bool,
        new_machine: I,
        new_data: DataView<DB>,
    },
    /// An instruction is about to be executed.
    Step {
        machine: I,
        data: DataView<DB>,
        is_static: bool,
        ret: Return,
        new_machine: I,
        new_data: DataView<DB>,
    },
    /// An instruction ended so.
    StepEnd {
        machine: I,
        data: DataView<DB>,
        is_static: bool,
        ended: Return,
        ret: Return,
        new_machine: I,
        new_data: DataView<DB>,
    },
    /// A log is about to be kept.
    Log { data: DataView<DB>, log: LogView, new_data: DataView<DB> },
    /// A call is about to be made.
    Call {
        data: DataView<DB>,
        call: CallInputs,
        is_static: bool,
        end: End,
        new_call: CallInputs,
        new_data: DataView<DB>,
    },
    /// A call ended so.
    CallEnd {
        data: DataView<DB>,
        call: CallInputs,
        end: End,
        is_static: bool,
        new_end: End,
        new_data: DataView<DB>,
    },
    /// A create is about to be made.
    Create {
        data: DataView<DB>,
        create: CreateInputs,
        address: Option<H160>,
        end: End,
        new_create: CreateInputs,
        new_data: DataView<DB>,
    },
    /// A create ended so.
    CreateEnd {
        data: DataView<DB>,
        create: CreateInputs,
        address: Option<H160>,
        end: End,
        new_address: Option<H160>,
        new_end: End,
        new_data: DataView<DB>,
    },
    /// An account is about to be destroyed.
    SelfDestruct,
}

impl<DB: Database, I: Interpreter> Event<DB, I> {
    /// The inspector lets things go on, and changes nothing of what it is shown.
    pub open spec fn is_quiet(self) -> bool {
        match self {
            Event::Initialize { machine, data, new_machine, new_data, .. } => {
                new_machine == machine && new_data == data
            },
            Event::Step { machine, data, ret, new_machine, new_data, .. } => {
                ret == Return::Continue && new_machine == machine && new_data == data
            },
            Event::StepEnd { machine, data, ret, new_machine, new_data, .. } => {
                ret == Return::Continue && new_machine == machine && new_data == data
            },
            Event::Log { data, new_data, .. } => new_data == data,
            Event::Call { data, call, end, new_call, new_data, .. } => {
                end.reason == Return::Continue && new_call == call && new_data == data
            },
            Event::CallEnd { data, end, new_end, new_data, .. } => {
                new_end == end && new_data == data
            },
            Event::Create { data, create, end, new_create, new_data, .. } => {
                end.reason == Return::Continue && new_create == create && new_data == data
            },
            Event::CreateEnd { data, address, end, new_address, new_end, new_data, .. } => {
                new_address == address && new_end == end && new_data == data
            },
            Event::SelfDestruct => true,
        }
    }
}

/// None of the events is one in which an inspector steps in.
pub open spec fn all_quiet<DB: Database, I: Interpreter>(told: Seq<Event<DB, I>>) -> bool {
    forall|i: int| 0 <= i < told.len() ==> (#[trigger] told[i]).is_quiet()
}

/// An inspector that admits these stories never steps in.
pub open spec fn never_steps_in<DB: Database, I: Interpreter>(
    stories: Set<Seq<Event<DB, I>>>,
) -> bool {
    forall|story: Seq<Event<DB, I>>| #[trigger] stories.contains(story) ==> all_quiet(story)
}

/// An inspector that admitted the stories `before` is told `told`, and admits the stories `after`:
/// it admitted what it was told, and whatever it goes on to admit it admitted after that.
pub open spec fn tells<DB: Database, I: Interpreter>(
    before: Set<Seq<Event<DB, I>>>,
    told: Seq<Event<DB, I>>,
    after: Set<Seq<Event<DB, I>>>,
) -> bool {
    &&& told.len() > 0 ==> before.contains(told)
    &&& forall|more: Seq<Event<DB, I>>| #[trigger]
        after.contains(more) ==> before.contains(told + more)
}

/// Nothing told leaves an inspector as it is.
pub proof fn tells_nothing<DB: Database, I: Interpreter>(stories: Set<Seq<Event<DB, I>>>)
    ensures
        tells(stories, Seq::empty(), stories),
{
    assert forall|more: Seq<Event<DB, I>>| #[trigger] stories.contains(more) implies stories.contains(
        Seq::<Event<DB, I>>::empty() + more,
    ) by {
        assert(Seq::<Event<DB, I>>::empty() + more =~= more);
    }
}

/// What is told in two parts is told as a whole.
pub proof fn tells_in_parts<DB: Database, I: Interpreter>(
    before: Set<Seq<Event<DB, I>>>,
    first: Seq<Event<DB, I>>,
    between: Set<Seq<Event<DB, I>>>,
    second: Seq<Event<DB, I>>,
    after: Set<Seq<Event<DB, I>>>,
)
    requires
        tells(before, first, between),
        tells(between, second, after),
    ensures
        tells(before, first + second, after),
{
    if second.len() == 0 {
        assert(first + second =~= first);
    }
    assert forall|more: Seq<Event<DB, I>>| #[trigger] after.contains(more) implies before.contains(
        first + second + more,
    ) by {
        assert(between.contains(second + more));
        assert(first + (second + more) =~= first + second + more);
    }
}

/// Something that watches a transaction, and may step in.
///
/// An inspector may change what the transaction works on, as long as the journal still can be
/// undone to what it was: it works through the journal's own operations. What an inspector does is
/// said by the stories that it admits: the events that it may be part of from now on, one after the
/// other, with its answers. They are the implementation's own. One that does not say anything else
/// promises nothing.
pub trait Inspector<DB: Database, I: Interpreter> {
    /// Whether the inspector may be part of these events, one after the other, from now on.
    open spec fn admits(&self, told: Seq<Event<DB, I>>) -> bool {
        true
    }

    /// Before a machine begins to run.
    fn initialize_interp(&mut self, interp: &mut I, data: &mut EVMData<'_, DB>, is_static: bool)
        ensures
            old(self).admits(seq![Event::Initialize {
                machine: *old(interp),
                data: old(data)@,
                is_static,
                new_machine: *final(interp),
                new_data: final(data)@,
            }]),
            forall|more: Seq<Event<DB, I>>| #[trigger]
                final(self).admits(more) ==> old(self).admits(
                    seq![Event::Initialize {
                    machine: *old(interp),
                    data: old(data)@,
                    is_static,
                    new_machine: *final(interp),
                    new_data: final(data)@,
                }] + more,
                ),
            final(data)@.journal.extends(old(data)@.journal),
    ;

    /// Before an instruction.
    fn step(&mut self, interp: &mut I, data: &mut EVMData<'_, DB>, is_static: bool) -> (r: Return)
        ensures
            old(self).admits(seq![Event::Step {
                machine: *old(interp),
                data: old(data)@,
                is_static,
                ret: r,
                new_machine: *final(interp),
                new_data: final(data)@,
            }]),
            forall|more: Seq<Event<DB, I>>| #[trigger]
                final(self).admits(more) ==> old(self).admits(
                    seq![Event::Step {
                    machine: *old(interp),
                    data: old(data)@,
                    is_static,
                    ret: r,
                    new_machine: *final(interp),
                    new_data: final(data)@,
                }] + more,
                ),
            final(data)@.journal.extends(old(data)@.journal),
    ;

    /// After an instruction.
    fn step_end(
        &mut self,
        interp: &mut I,
        data: &mut EVMData<'_, DB>,
        is_static: bool,
        ret: Return,
    ) -> (r: Return)
        ensures
            old(self).admits(seq![Event::StepEnd {
                machine: *old(interp),
                data: old(data)@,
                is_static,
                ended: ret,
                ret: r,
                new_machine: *final(interp),
                new_data: final(data)@,
            }]),
            forall|more: Seq<Event<DB, I>>| #[trigger]
                final(self).admits(more) ==> old(self).admits(
                    seq![Event::StepEnd {
                    machine: *old(interp),
                    data: old(data)@,
                    is_static,
                    ended: ret,
                    ret: r,
                    new_machine: *final(interp),
                    new_data: final(data)@,
                }] + more,
                ),
            final(data)@.journal.extends(old(data)@.journal),
    ;

    /// Before a log is kept.
    fn log(
        &mut self,
        data: &mut EVMData<'_, DB>,
        address: &H160,
        topics: &Vec<H256>,
        log_data: &Vec<u8>,
    )
        ensures
            old(self).admits(seq![Event::Log {
                data: old(data)@,
                log: LogView { address: address@, topics: topics@, data: log_data@ },
                new_data: final(data)@,
            }]),
            forall|more: Seq<Event<DB, I>>| #[trigger]
                final(self).admits(more) ==> old(self).admits(
                    seq![Event::Log {
                    data: old(data)@,
                    log: LogView { address: address@, topics: topics@, data: log_data@ },
                    new_data: final(data)@,
                }] + more,
                ),
            final(data)@.journal.extends(old(data)@.journal),
    ;

    /// Before a call. Anything but `Continue` ends the call.
    fn call(
        &mut self,
        data: &mut EVMData<'_, DB>,
        inputs: &mut CallInputs,
        is_static: bool,
    ) -> (r: (Return, Gas, Vec<u8>))
        ensures
            old(self).admits(seq![Event::Call {
                data: old(data)@,
                call: *old(inputs),
                is_static,
                end: End { reason: r.0, gas: r.1@, output: r.2@ },
                new_call: *final(inputs),
                new_data: final(data)@,
            }]),
            forall|more: Seq<Event<DB, I>>| #[trigger]
                final(self).admits(more) ==> old(self).admits(
                    seq![Event::Call {
                    data: old(data)@,
                    call: *old(inputs),
                    is_static,
                    end: End { reason: r.0, gas: r.1@, output: r.2@ },
                    new_call: *final(inputs),
                    new_data: final(data)@,
                }] + more,
                ),
            final(data)@.journal.extends(old(data)@.journal),
    ;

    /// After a call. What it returns is what the call returns.
    fn call_end(
        &mut self,
        data: &mut EVMData<'_, DB>,
        inputs: &CallInputs,
        gas: Gas,
        ret: Return,
        out: Vec<u8>,
        is_static: bool,
    ) -> (r: (Return, Gas, Vec<u8>))
        ensures
            old(self).admits(seq![Event::CallEnd {
                data: old(data)@,
                call: *inputs,
                end: End { reason: ret, gas: gas@, output: out@ },
                is_static,
                new_end: End { reason: r.0, gas: r.1@, output: r.2@ },
                new_data: final(data)@,
            }]),
            forall|more: Seq<Event<DB, I>>| #[trigger]
                final(self).admits(more) ==> old(self).admits(
                    seq![Event::CallEnd {
                    data: old(data)@,
                    call: *inputs,
                    end: End { reason: ret, gas: gas@, output: out@ },
                    is_static,
                    new_end: End { reason: r.0, gas: r.1@, output: r.2@ },
                    new_data: final(data)@,
                }] + more,
                ),
            final(data)@.journal.extends(old(data)@.journal),
    ;

    /// Before a create. Anything but `Continue` ends the create.
    fn create(&mut self, data: &mut EVMData<'_, DB>, inputs: &mut CreateInputs) -> (r: (
        Return,
        Option<H160>,
        Gas,
        Vec<u8>,
    ))
        ensures
            old(self).admits(seq![Event::Create {
                data: old(data)@,
                create: *old(inputs),
                address: r.1,
                end: End { reason: r.0, gas: r.2@, output: r.3@ },
                new_create: *final(inputs),
                new_data: final(data)@,
            }]),
            forall|more: Seq<Event<DB, I>>| #[trigger]
                final(self).admits(more) ==> old(self).admits(
                    seq![Event::Create {
                    data: old(data)@,
                    create: *old(inputs),
                    address: r.1,
                    end: End { reason: r.0, gas: r.2@, output: r.3@ },
                    new_create: *final(inputs),
                    new_data: final(data)@,
                }] + more,
                ),
            final(data)@.journal.extends(old(data)@.journal),
    ;

    /// After a create. What it returns is what the create returns.
    fn create_end(
        &mut self,
        data: &mut EVMData<'_, DB>,
        inputs: &CreateInputs,
        ret: Return,
        address: Option<H160>,
        gas: Gas,
        out: Vec<u8>,
    ) -> (r: (Return, Option<H160>, Gas, Vec<u8>))
        ensures
            old(self).admits(seq![Event::CreateEnd {
                data: old(data)@,
                create: *inputs,
                address,
                end: End { reason: ret, gas: gas@, output: out@ },
                new_address: r.1,
                new_end: End { reason: r.0, gas: r.2@, output: r.3@ },
                new_data: final(data)@,
            }]),
            forall|more: Seq<Event<DB, I>>| #[trigger]
                final(self).admits(more) ==> old(self).admits(
                    seq![Event::CreateEnd {
                    data: old(data)@,
                    create: *inputs,
                    address,
                    end: End { reason: ret, gas: gas@, output: out@ },
                    new_address: r.1,
                    new_end: End { reason: r.0, gas: r.2@, output: r.3@ },
                    new_data: final(data)@,
                }] + more,
                ),
            final(data)@.journal.extends(old(data)@.journal),
    ;

    /// Before an account is destroyed.
    fn selfdestruct(&mut self)
        ensures
            old(self).admits(seq![Event::SelfDestruct]),
            forall|more: Seq<Event<DB, I>>| #[trigger]
                final(self).admits(more) ==> old(self).admits(
                    seq![Event::SelfDestruct] + more,
                ),
    ;
}

/// An inspector that never steps in.
#[derive(Clone, Copy, Debug)]
pub struct NoOpInspector;

impl<DB: Database, I: Interpreter> Inspector<DB, I> for NoOpInspector {
    open spec fn admits(&self, told: Seq<Event<DB, I>>) -> bool {
        all_quiet(told)
    }

    fn initialize_interp(&mut self, interp: &mut I, data: &mut EVMData<'_, DB>, is_static: bool) {
        proof {
            extends_itself(data@.journal);
        }
    }

    fn step(&mut self, interp: &mut I, data: &mut EVMData<'_, DB>, is_static: bool) -> (r: Return) {
        proof {
            extends_itself(data@.journal);
        }
        Return::Continue
    }

    fn step_end(
        &mut self,
        interp: &mut I,
        data: &mut EVMData<'_, DB>,
        is_static: bool,
        ret: Return,
    ) -> (r: Return) {
        proof {
            extends_itself(data@.journal);
        }
        Return::Continue
    }

    fn log(
        &mut self,
        data: &mut EVMData<'_, DB>,
        address: &H160,
        topics: &Vec<H256>,
        log_data: &Vec<u8>,
    ) {
        proof {
            extends_itself(data@.journal);
        }
    }

    fn call(
        &mut self,
        data: &mut EVMData<'_, DB>,
        inputs: &mut CallInputs,
        is_static: bool,
    ) -> (r: (Return, Gas, Vec<u8>)) {
        proof {
            extends_itself(data@.journal);
        }
        (Return::Continue, Gas::new(0), Vec::new())
    }

    fn call_end(
        &mut self,
        data: &mut EVMData<'_, DB>,
        inputs: &CallInputs,
        gas: Gas,
        ret: Return,
        out: Vec<u8>,
        is_static: bool,
    ) -> (r: (Return, Gas, Vec<u8>)) {
        proof {
            extends_itself(data@.journal);
        }
        (ret, gas, out)
    }

    fn create(&mut self, data: &mut EVMData<'_, DB>, inputs: &mut CreateInputs) -> (r: (
        Return,
        Option<H160>,
        Gas,
        Vec<u8>,
    )) {
        proof {
            extends_itself(data@.journal);
        }
        (Return::Continue, None, Gas::new(0), Vec::new())
    }

    fn create_end(
        &mut self,
        data: &mut EVMData<'_, DB>,
        inputs: &CreateInputs,
        ret: Return,
        address: Option<H160>,
        gas: Gas,
        out: Vec<u8>,
    ) -> (r: (Return, Option<H160>, Gas, Vec<u8>)) {
        proof {
            extends_itself(data@.journal);
        }
        (ret, address, gas, out)
    }

    fn selfdestruct(&mut self) {
    }
}

} // verus!
