//! The contracts that are built in.
use crate::models::{log_views, Log, LogView, Return};
use crate::primitives::H160;
use crate::state::{lists, lookup};
use vstd::prelude::*;

verus! {

/// `revm_precompiles::Precompiles`, a table of built-in contracts by address.
#[verifier::external_type_specification]
#[verifier::external_body]
pub struct ExPrecompiles(revm_precompiles::Precompiles);

/// `revm_precompiles::Precompile`, a built-in contract.
#[verifier::external_type_specification]
#[verifier::external_body]
pub struct ExPrecompile(revm_precompiles::Precompile);

/// The contracts in a table, by address.
pub uninterp spec fn precompile_table(precompiles: revm_precompiles::Precompiles) -> Map<
    Seq<u8>,
    revm_precompiles::Precompile,
>;

/// `revm_precompiles::Precompiles::len`: how many contracts are in the table.
#[verifier::external_body]
pub(crate) fn precompiles_len(precompiles: &revm_precompiles::Precompiles) -> (r: usize)
    ensures
        r == precompile_table(*precompiles).dom().len(),
{
    precompiles.len()
}

/// `revm_precompiles::Precompiles::contains`: whether there is a contract under the address.
#[verifier::external_body]
pub(crate) fn precompiles_contains(
    precompiles: &revm_precompiles::Precompiles,
    address: &H160,
) -> (r: bool)
    ensures
        r == precompile_table(*precompiles).contains_key(address@),
{
    precompiles.contains(&primitive_types::H160(*address))
}

/// `revm_precompiles::Precompiles::get`: the contract under the address, and `None` if and only if
/// there is none.
#[verifier::external_body]
pub(crate) fn precompiles_get(
    precompiles: &revm_precompiles::Precompiles,
    address: &H160,
) -> (r: Option<revm_precompiles::Precompile>)
    ensures
        r == lookup(precompile_table(*precompiles), address@),
{
    precompiles.get(&primitive_types::H160(*address))
}

/// `revm_precompiles::Precompiles::addresses`: the addresses of the table, each once. The order
/// is not the same in every process, and nothing is said of it.
#[verifier::external_body]
pub(crate) fn precompiles_addresses(precompiles: &revm_precompiles::Precompiles) -> (r: Vec<H160>)
    ensures
        lists(r@, precompile_table(*precompiles).dom()),
{
    precompiles.addresses().into_iter().map(|address| address.0).collect()
}

/// Why a built-in contract failed.
#[derive(Clone, Copy, Debug, PartialEq, Eq, Structural)]
pub enum PrecompileFailure {
    Exit,
    OutOfGas,
    Other,
}

/// What a built-in contract returns where it succeeds.
#[derive(Debug)]
pub struct PrecompileOutput {
    pub cost: u64,
    pub output: Vec<u8>,
    pub logs: Vec<Log>,
}

/// The value of a [`PrecompileOutput`].
pub struct PrecompileOutputView {
    pub cost: u64,
    pub output: Seq<u8>,
    pub logs: Seq<LogView>,
}

impl View for PrecompileOutput {
    type V = PrecompileOutputView;

    open spec fn view(&self) -> PrecompileOutputView {
        PrecompileOutputView {
            cost: self.cost,
            output: self.output@,
            logs: log_views(self.logs@),
        }
    }
}

/// The value of what a built-in contract comes back with.
pub open spec fn precompile_view(r: Result<PrecompileOutput, PrecompileFailure>) -> Result<
    PrecompileOutputView,
    PrecompileFailure,
> {
    match r {
        Ok(output) => Ok(output@),
        Err(failure) => Err(failure),
    }
}

/// What the function of a built-in contract returns.
pub uninterp spec fn precompile_answer(
    precompile: revm_precompiles::Precompile,
    input: Seq<u8>,
    gas_limit: u64,
) -> Result<PrecompileOutputView, PrecompileFailure>;

/// The function in a `revm_precompiles::Precompile`: a function of the input and the gas limit
/// alone, for every contract that a table of that crate holds. That is so on machines with a 64-bit
/// `usize`; a smaller one cuts the lengths that the input of `modexp` declares.
#[verifier::external_body]
pub(crate) fn precompile_run(
    precompile: &revm_precompiles::Precompile,
    input: &[u8],
    gas_limit: u64,
) -> (r: Result<PrecompileOutput, PrecompileFailure>)
    ensures
        precompile_view(r) == precompile_answer(*precompile, input@, gas_limit),
{
    let result = match precompile {
        revm_precompiles::Precompile::Standard(fun) => fun(input, gas_limit),
        revm_precompiles::Precompile::Custom(fun) => fun(input, gas_limit),
    };
    match result {
        Ok(out) => Ok(PrecompileOutput { cost: out.cost, output: out.output,
            logs: out.logs.into_iter().map(|log| Log { address: log.address.0,
                topics: log.topics.into_iter().map(|topic| topic.0).collect(),
                data: log.data.to_vec(), }).collect(), }),
        Err(revm_precompiles::Return::Exit) => Err(PrecompileFailure::Exit),
        Err(revm_precompiles::Return::OutOfGas) => Err(PrecompileFailure::OutOfGas),
        Err(revm_precompiles::Return::Other(_)) => Err(PrecompileFailure::Other),
    }
}

/// How a call of a built-in contract that failed ends.
pub open spec fn precompile_failure_reason(failure: PrecompileFailure) -> Return {
    if failure is OutOfGas {
        Return::OutOfGas
    } else {
        Return::PrecompileError
    }
}

} // verus!
