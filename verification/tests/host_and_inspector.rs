use evm_impl::data::EVMData;
use evm_impl::db::{Database, EmptyDB};
use evm_impl::evm_impl::{EVMImpl, Transact};
use evm_impl::gas::Gas;
use evm_impl::host::Host;
use evm_impl::inspector::{Inspector, NoOpInspector};
use evm_impl::interpreter::{Contract, Exit, Interpreter, NoOpInterpreter, Reply, Request};
use evm_impl::journaled_state::JournaledState;
use evm_impl::models::{
    AccountInfo, AnalysisKind, BlockEnv, Bytecode, CallContext, CallInputs, CallScheme, CfgEnv,
    CreateInputs, CreateScheme, Env, Log, Return, TransactOut, TransactTo, Transfer, TxEnv,
    KECCAK_EMPTY,
};
use evm_impl::precompiles::{PrecompileFailure, PrecompileOutput};
use evm_impl::primitives::{H160, H256, U256};
use evm_impl::spec_id::{BerlinSpec, FrontierSpec, LondonSpec, SpecId, StaticSpec};
use revm_precompiles::Precompiles;
use sha3::Digest;

const fn at(n: u8) -> H160 {
    let mut address = [0; 20];
    address[19] = n;
    address
}

fn word(n: u64) -> U256 {
    U256::from_u64(n)
}

fn env() -> Env {
    Env {
        cfg: CfgEnv {
            chain_id: word(1),
            perf_all_precompiles_have_balance: false,
            perf_analyse_created_bytecodes: AnalysisKind::Raw,
            limit_contract_code_size: None,
        },
        block: BlockEnv {
            gas_limit: word(1_000_000),
            number: word(1),
            coinbase: at(0x50),
            timestamp: word(1),
            difficulty: word(1),
            basefee: word(0),
        },
        tx: TxEnv {
            caller: at(0x40),
            gas_limit: 100_000,
            gas_price: word(0),
            gas_priority_fee: None,
            transact_to: TransactTo::Call(at(0x60)),
            value: word(0),
            data: vec![],
            access_list: vec![],
        },
    }
}

fn call(contract: H160, value: u64) -> CallInputs {
    CallInputs {
        contract,
        transfer: Transfer { source: at(0x40), target: contract, value: word(value) },
        input: vec![1, 2, 3],
        gas_limit: 1000,
        context: CallContext {
            address: contract,
            caller: at(0x40),
            code_address: contract,
            apparent_value: word(value),
            scheme: CallScheme::Call,
        },
    }
}

fn create(value: u64) -> CreateInputs {
    CreateInputs {
        caller: at(0x40),
        scheme: CreateScheme::Create,
        value: word(value),
        init_code: vec![1],
        gas_limit: 1000,
    }
}

/// A database in which every account has its last byte for balance and nonce, and no code.
struct Rich;

impl Database for Rich {
    type Error = u8;

    fn basic(&mut self, address: H160) -> Result<Option<AccountInfo>, u8> {
        if address[18] == 1 {
            return Err(1);
        }
        Ok(Some(AccountInfo {
            balance: word(address[19] as u64),
            nonce: address[19] as u64,
            code_hash: KECCAK_EMPTY,
            code: None,
        }))
    }

    fn code_by_hash(&mut self, _hash: H256) -> Result<Bytecode, u8> {
        Err(2)
    }

    fn storage(&mut self, _address: H160, index: U256) -> Result<U256, u8> {
        if index.limbs[0] == 99 {
            return Err(3);
        }
        Ok(word(index.limbs[0] + 1))
    }

    fn block_hash(&mut self, number: U256) -> Result<H256, u8> {
        if number.limbs[0] == 99 {
            return Err(4);
        }
        Ok([number.limbs[0] as u8; 32])
    }
}

/// A machine that asks to go on, logs, destroys its account, and stops.
struct Talker {
    address: H160,
    asked: u8,
    told: Vec<u8>,
}

impl Interpreter for Talker {
    fn check(bytes: &Vec<u8>) -> Vec<u8> {
        bytes.clone()
    }

    fn analyse(bytes: &Vec<u8>, _spec_id: SpecId) -> Vec<u8> {
        bytes.clone()
    }

    fn new(contract: Contract, _gas_limit: u64, _spec_id: SpecId, _is_static: bool) -> Self {
        Talker { address: contract.address, asked: 0, told: vec![] }
    }

    fn resume(&mut self, _env: &Env, reply: Reply) -> Request {
        if let Reply::Step { ret } = reply {
            self.told.push(if ret == Return::Continue { 1 } else { 2 });
        }
        self.asked += 1;
        match self.asked {
            1 => Request::Step,
            2 => Request::StepEnd { ret: Return::Continue },
            3 => Request::Log { address: self.address, topics: vec![], data: vec![9] },
            4 => Request::SelfDestruct { address: self.address, target: at(0x70) },
            _ => Request::Exit {
                exit: Exit {
                    reason: Return::Return,
                    spent: 10,
                    refunded: 0,
                    output: self.told.clone(),
                },
            },
        }
    }
}

/// An inspector that keeps a record, and steps in where it is told to.
struct Watcher {
    seen: Vec<String>,
    stop_call: bool,
    stop_create: bool,
    stop_step: bool,
    change_end: bool,
    raise_depth: bool,
}

fn watcher() -> Watcher {
    Watcher {
        seen: vec![],
        stop_call: false,
        stop_create: false,
        stop_step: false,
        change_end: false,
        raise_depth: false,
    }
}

impl<DB: Database, I: Interpreter> Inspector<DB, I> for Watcher {
    fn initialize_interp(&mut self, _interp: &mut I, _data: &mut EVMData<'_, DB>, is_static: bool) {
        self.seen.push(format!("initialize {}", is_static));
    }

    fn step(&mut self, _interp: &mut I, _data: &mut EVMData<'_, DB>, is_static: bool) -> Return {
        self.seen.push(format!("step {}", is_static));
        if self.stop_step {
            Return::Stop
        } else {
            Return::Continue
        }
    }

    fn step_end(
        &mut self,
        _interp: &mut I,
        _data: &mut EVMData<'_, DB>,
        is_static: bool,
        ret: Return,
    ) -> Return {
        self.seen.push(format!("step_end {} {:?}", is_static, ret));
        Return::Continue
    }

    fn log(
        &mut self,
        _data: &mut EVMData<'_, DB>,
        address: &H160,
        topics: &Vec<H256>,
        log_data: &Vec<u8>,
    ) {
        self.seen.push(format!("log {} {} {:?}", address[19], topics.len(), log_data));
    }

    fn call(
        &mut self,
        data: &mut EVMData<'_, DB>,
        inputs: &mut CallInputs,
        is_static: bool,
    ) -> (Return, Gas, Vec<u8>) {
        self.seen.push(format!("call {} {}", inputs.contract[19], is_static));
        if self.raise_depth {
            data.journaled_state.depth = 1025;
        }
        if self.stop_call {
            (Return::Revert, Gas::new(7), vec![7])
        } else {
            (Return::Continue, Gas::new(0), vec![])
        }
    }

    fn call_end(
        &mut self,
        _data: &mut EVMData<'_, DB>,
        _inputs: &CallInputs,
        gas: Gas,
        ret: Return,
        out: Vec<u8>,
        is_static: bool,
    ) -> (Return, Gas, Vec<u8>) {
        self.seen.push(format!("call_end {:?} {}", ret, is_static));
        if self.change_end {
            (Return::Stop, gas, vec![5])
        } else {
            (ret, gas, out)
        }
    }

    fn create(
        &mut self,
        data: &mut EVMData<'_, DB>,
        inputs: &mut CreateInputs,
    ) -> (Return, Option<H160>, Gas, Vec<u8>) {
        self.seen.push(format!("create {}", inputs.caller[19]));
        if self.raise_depth {
            data.journaled_state.depth = 1025;
        }
        if self.stop_create {
            (Return::Revert, None, Gas::new(7), vec![7])
        } else {
            (Return::Continue, None, Gas::new(0), vec![])
        }
    }

    fn create_end(
        &mut self,
        _data: &mut EVMData<'_, DB>,
        _inputs: &CreateInputs,
        ret: Return,
        address: Option<H160>,
        gas: Gas,
        out: Vec<u8>,
    ) -> (Return, Option<H160>, Gas, Vec<u8>) {
        self.seen.push(format!("create_end {:?} {}", ret, address.is_some()));
        if self.change_end {
            (Return::Stop, None, gas, vec![5])
        } else {
            (ret, address, gas, out)
        }
    }

    fn selfdestruct(&mut self) {
        self.seen.push(format!("selfdestruct"));
    }
}

type Plain<'a, DB> = EVMImpl<'a, LondonSpec, DB, NoOpInterpreter, false>;
type Watched<'a> = EVMImpl<'a, LondonSpec, Rich, Talker, true>;

#[test]
fn the_environment_can_be_reached() {
    let (mut db, mut env, mut inspector) = (EmptyDB, env(), NoOpInspector);
    let mut evm = Plain::new(&mut db, &mut env, &mut inspector, Precompiles::latest().clone());
    assert_eq!(evm.env().tx.gas_limit, 100_000);
    evm.env().tx.gas_limit = 5;
    assert_eq!(evm.env().tx.gas_limit, 5);
}

#[test]
fn accounts_are_cold_at_first() {
    let (mut db, mut env, mut inspector) = (Rich, env(), NoOpInspector);
    let mut evm = Plain::new(&mut db, &mut env, &mut inspector, Precompiles::latest().clone());
    assert_eq!(evm.load_account(at(0x60)), Some((true, false)));
    assert_eq!(evm.load_account(at(0x60)), Some((false, false)));
    assert_eq!(evm.load_account(at(9)), Some((false, false)));
    assert_eq!(evm.load_account(at(10)), Some((true, false)));
    assert_eq!(evm.load_account(at(0)), Some((true, true)));
    let mut failing = at(0x60);
    failing[18] = 1;
    assert_eq!(evm.load_account(failing), None);
}

#[test]
fn an_unknown_account_is_new() {
    let (mut db, mut env, mut inspector) = (EmptyDB, env(), NoOpInspector);
    let mut evm = Plain::new(&mut db, &mut env, &mut inspector, Precompiles::latest().clone());
    assert_eq!(evm.load_account(at(0x60)), Some((true, true)));
    let (mut db, mut env, mut inspector) = (EmptyDB, self::env(), NoOpInspector);
    let mut evm = EVMImpl::<FrontierSpec, EmptyDB, NoOpInterpreter, false>::new(
        &mut db,
        &mut env,
        &mut inspector,
        Precompiles::homestead().clone(),
    );
    assert_eq!(evm.load_account(at(0x60)), Some((true, true)));
    let (mut db, mut env, mut inspector) = (Rich, self::env(), NoOpInspector);
    let mut evm = EVMImpl::<FrontierSpec, Rich, NoOpInterpreter, false>::new(
        &mut db,
        &mut env,
        &mut inspector,
        Precompiles::homestead().clone(),
    );
    assert_eq!(evm.load_account(at(0)), Some((true, false)));
    assert_eq!(evm.load_account(at(5)), Some((true, false)));
    assert_eq!(evm.load_account(at(4)), Some((false, false)));
}

#[test]
fn balances_code_and_hashes() {
    let (mut db, mut env, mut inspector) = (Rich, env(), NoOpInspector);
    let mut evm = Plain::new(&mut db, &mut env, &mut inspector, Precompiles::latest().clone());
    let (balance, is_cold) = evm.balance(at(0x60)).unwrap();
    assert_eq!((balance.limbs, is_cold), ([0x60, 0, 0, 0], true));
    let (code, is_cold) = evm.code(at(0x60)).unwrap();
    assert_eq!((code.bytes.len(), is_cold), (0, false));
    assert_eq!(evm.code_hash(at(0x60)), Some((KECCAK_EMPTY, false)));
    assert_eq!(evm.code_hash(at(0)), Some(([0; 32], true)));
    assert_eq!(evm.block_hash(word(7)), Some([7; 32]));
    assert_eq!(evm.block_hash(word(99)), None);
    let mut failing = at(0x60);
    failing[18] = 1;
    assert!(evm.balance(failing).is_none());
    assert!(evm.code(failing).is_none());
    assert!(evm.code_hash(failing).is_none());
}

#[test]
fn a_precompile_may_be_taken_to_have_a_balance() {
    let (mut db, mut env, mut inspector) = (EmptyDB, env(), NoOpInspector);
    let mut evm = Plain::new(&mut db, &mut env, &mut inspector, Precompiles::latest().clone());
    assert_eq!(evm.code_hash(at(3)), Some(([0; 32], false)));
    evm.env().cfg.perf_all_precompiles_have_balance = true;
    assert_eq!(evm.code_hash(at(3)), Some((KECCAK_EMPTY, false)));
    assert_eq!(evm.code_hash(at(0x33)), Some(([0; 32], true)));
}

#[test]
fn an_empty_database_hashes_block_numbers() {
    let (mut db, mut env, mut inspector) = (EmptyDB, env(), NoOpInspector);
    let mut evm = Plain::new(&mut db, &mut env, &mut inspector, Precompiles::latest().clone());
    let mut number = [0; 32];
    number[31] = 5;
    let hash: H256 = sha3::Keccak256::digest(number).into();
    assert_eq!(evm.block_hash(word(5)), Some(hash));
    assert_eq!(evm.balance(at(0x60)).unwrap().0.limbs, [0; 4]);
}

#[test]
fn slots_need_a_loaded_account() {
    let (mut db, mut env, mut inspector) = (Rich, env(), NoOpInspector);
    let mut evm = Plain::new(&mut db, &mut env, &mut inspector, Precompiles::latest().clone());
    assert!(evm.sload(at(0x60), word(4)).is_none());
    assert!(evm.sstore(at(0x60), word(4), word(1)).is_none());
    assert!(evm.selfdestruct(at(0x60), at(0x61)).is_none());
    evm.load_account(at(0x60));
    let (value, is_cold) = evm.sload(at(0x60), word(4)).unwrap();
    assert_eq!((value.limbs[0], is_cold), (5, true));
    let (original, present, new, is_cold) = evm.sstore(at(0x60), word(4), word(1)).unwrap();
    assert_eq!(
        (original.limbs[0], present.limbs[0], new.limbs[0], is_cold),
        (5, 5, 1, false)
    );
    assert_eq!(evm.sload(at(0x60), word(4)).unwrap().0.limbs[0], 1);
    assert!(evm.sload(at(0x60), word(99)).is_none());
    assert!(evm.sstore(at(0x60), word(99), word(1)).is_none());
}

#[test]
fn an_account_destroyed_for_itself_loses_its_balance() {
    let (mut db, mut env, mut inspector) = (Rich, env(), NoOpInspector);
    let mut evm = Plain::new(&mut db, &mut env, &mut inspector, Precompiles::latest().clone());
    evm.load_account(at(0x60));
    let first = evm.selfdestruct(at(0x60), at(0x60)).unwrap();
    assert!(first.had_value && first.exists && !first.is_cold && !first.previously_destroyed);
    assert_eq!(evm.balance(at(0x60)).unwrap().0.limbs[0], 0);
    let second = evm.selfdestruct(at(0x60), at(0x61)).unwrap();
    assert!(!second.had_value && second.exists && second.is_cold && second.previously_destroyed);
}

#[test]
fn a_call_of_the_host_moves_value() {
    let (mut db, mut env, mut inspector) = (Rich, env(), NoOpInspector);
    let mut evm = Plain::new(&mut db, &mut env, &mut inspector, Precompiles::latest().clone());
    let (ret, gas, out) = evm.call::<LondonSpec>(&mut call(at(0x60), 0x10));
    assert_eq!((ret, gas.spend(), gas.limit(), out.len()), (Return::Stop, 0, 1000, 0));
    assert_eq!(evm.balance(at(0x40)).unwrap().0.limbs[0], 0x30);
    assert_eq!(evm.balance(at(0x60)).unwrap().0.limbs[0], 0x70);
    let (ret, gas, _) = evm.call::<LondonSpec>(&mut call(at(0x60), 0x31));
    assert_eq!((ret, gas.spend()), (Return::OutOfFund, 0));
    assert_eq!(evm.balance(at(0x40)).unwrap().0.limbs[0], 0x30);
}

#[test]
fn a_call_of_the_host_reaches_precompiles() {
    let (mut db, mut env, mut inspector) = (Rich, env(), NoOpInspector);
    let mut evm = Plain::new(&mut db, &mut env, &mut inspector, Precompiles::latest().clone());
    let (ret, gas, out) = evm.call::<LondonSpec>(&mut call(at(4), 0));
    assert_eq!((ret, gas.spend(), out), (Return::Continue, 18, vec![1, 2, 3]));
}

#[test]
fn a_create_of_the_host_raises_the_nonce() {
    let (mut db, mut env, mut inspector) = (Rich, env(), NoOpInspector);
    let mut evm = Plain::new(&mut db, &mut env, &mut inspector, Precompiles::latest().clone());
    let (ret, address, gas, out) = evm.create::<LondonSpec>(&mut create(1));
    let made = evm_impl::address::create_address(at(0x40), 0x40);
    // Every account of this database has a nonce.
    assert_eq!((ret, address, gas.spend(), out.len()), (Return::CreateCollision, Some(made), 0, 0));
    let (_, address, _, _) = evm.create::<LondonSpec>(&mut create(1));
    assert_eq!(address, Some(evm_impl::address::create_address(at(0x40), 0x41)));
    let (ret, address, _, _) = evm.create::<LondonSpec>(&mut create(0x41));
    assert_eq!((ret, address), (Return::OutOfFund, None));
}

#[test]
fn an_inspector_sees_everything() {
    let (mut db, mut env, mut inspector) = (Rich, env(), watcher());
    let mut evm = Watched::new(&mut db, &mut env, &mut inspector, Precompiles::latest().clone());
    let (result, state) = evm.transact();
    assert_eq!(result.exit_reason, Return::Return);
    assert!(matches!(&result.out, TransactOut::Call(bytes) if *bytes == vec![1, 1]));
    assert_eq!(result.logs.len(), 1);
    assert!(state.get(&at(0x60)).unwrap().is_destroyed);
    assert_eq!(
        inspector.seen,
        vec![
            "call 96 false",
            "initialize false",
            "step false",
            "step_end false Continue",
            "log 96 0 [9]",
            "selfdestruct",
            "call_end Return false"
        ]
    );
}

#[test]
fn an_inspector_that_is_not_asked_sees_nothing() {
    let (mut db, mut env, mut inspector) = (Rich, env(), watcher());
    let mut evm = EVMImpl::<LondonSpec, Rich, Talker, false>::new(
        &mut db,
        &mut env,
        &mut inspector,
        Precompiles::latest().clone(),
    );
    let (result, _) = evm.transact();
    assert_eq!(result.exit_reason, Return::Return);
    assert!(inspector.seen.is_empty());
}

#[test]
fn an_inspector_may_end_a_call_before_it_begins() {
    let (mut db, mut env, mut inspector) = (Rich, env(), watcher());
    inspector.stop_call = true;
    let mut evm = Watched::new(&mut db, &mut env, &mut inspector, Precompiles::latest().clone());
    let (ret, gas, out) = evm.call::<StaticSpec<LondonSpec>>(&mut call(at(0x60), 1));
    assert_eq!((ret, gas.limit(), out), (Return::Revert, 7, vec![7]));
    assert_eq!(evm.balance(at(0x60)).unwrap().0.limbs[0], 0x60);
    assert_eq!(inspector.seen, vec!["call 96 true", "call_end Revert true"]);
}

#[test]
fn an_inspector_has_the_last_word_on_a_call() {
    let (mut db, mut env, mut inspector) = (Rich, env(), watcher());
    inspector.change_end = true;
    let mut evm = Watched::new(&mut db, &mut env, &mut inspector, Precompiles::latest().clone());
    let (ret, _, out) = evm.call::<LondonSpec>(&mut call(at(0x60), 0x41));
    assert_eq!((ret, out), (Return::Stop, vec![5]));
    assert_eq!(inspector.seen, vec!["call 96 false", "call_end OutOfFund false"]);
}

#[test]
fn an_inspector_does_not_hear_of_the_end_where_the_database_failed() {
    let (mut db, mut env, mut inspector) = (Rich, env(), watcher());
    inspector.change_end = true;
    let mut evm = Watched::new(&mut db, &mut env, &mut inspector, Precompiles::latest().clone());
    let mut failing = at(0x60);
    failing[18] = 1;
    let (ret, gas, out) = evm.call::<LondonSpec>(&mut call(failing, 0));
    assert_eq!((ret, gas.spend(), out.len()), (Return::FatalExternalError, 0, 0));
    assert_eq!(inspector.seen, vec!["call 96 false"]);
}

#[test]
fn an_inspector_may_stop_a_step() {
    let (mut db, mut env, mut inspector) = (Rich, env(), watcher());
    inspector.stop_step = true;
    let mut evm = Watched::new(&mut db, &mut env, &mut inspector, Precompiles::latest().clone());
    let (_, _, out) = evm.call::<LondonSpec>(&mut call(at(0x60), 0));
    assert_eq!(out, vec![2, 1]);
}

#[test]
fn an_inspector_may_end_a_create_before_it_begins() {
    let (mut db, mut env, mut inspector) = (Rich, env(), watcher());
    inspector.stop_create = true;
    let mut evm = Watched::new(&mut db, &mut env, &mut inspector, Precompiles::latest().clone());
    let (ret, address, gas, out) = evm.create::<LondonSpec>(&mut create(1));
    assert_eq!((ret, address, gas.limit(), out), (Return::Revert, None, 7, vec![7]));
    assert_eq!(inspector.seen, vec!["create 64", "create_end Revert false"]);
}

#[test]
fn an_inspector_does_not_hear_of_the_end_of_a_refused_create() {
    let (mut db, mut env, mut inspector) = (Rich, env(), watcher());
    inspector.change_end = true;
    let mut evm = Watched::new(&mut db, &mut env, &mut inspector, Precompiles::latest().clone());
    let (ret, address, _, _) = evm.create::<LondonSpec>(&mut create(1));
    assert_eq!((ret, address.is_some()), (Return::CreateCollision, true));
    assert_eq!(inspector.seen, vec!["create 64"]);
}

#[test]
fn an_inspector_has_the_last_word_on_a_create() {
    let (mut db, mut env, mut inspector) = (EmptyDB, env(), watcher());
    inspector.change_end = true;
    let mut evm = EVMImpl::<LondonSpec, EmptyDB, NoOpInterpreter, true>::new(
        &mut db,
        &mut env,
        &mut inspector,
        Precompiles::latest().clone(),
    );
    let (ret, address, _, out) = evm.create::<StaticSpec<LondonSpec>>(&mut create(0));
    assert_eq!((ret, address, out), (Return::Stop, None, vec![5]));
    assert_eq!(
        inspector.seen,
        vec!["create 64", "initialize true", "create_end Continue true"]
    );
}

#[test]
fn an_inspector_that_never_steps_in_changes_nothing() {
    let (mut db, mut env, mut inspector) = (Rich, env(), NoOpInspector);
    let mut evm = Watched::new(&mut db, &mut env, &mut inspector, Precompiles::latest().clone());
    let (ret, gas, out) = evm.call::<LondonSpec>(&mut call(at(0x60), 0x10));
    assert_eq!((ret, gas.spend(), out), (Return::Return, 10, vec![1, 1]));
    let (ret, gas, out) = evm.call::<LondonSpec>(&mut call(at(4), 0));
    assert_eq!((ret, gas.spend(), out), (Return::Continue, 18, vec![1, 2, 3]));
}

#[test]
fn calls_and_creates_are_not_nested_too_deep() {
    let (mut db, mut env, mut inspector) = (Rich, env(), watcher());
    inspector.raise_depth = true;
    let mut evm = Watched::new(&mut db, &mut env, &mut inspector, Precompiles::latest().clone());
    let (ret, gas, out) = evm.call::<LondonSpec>(&mut call(at(0x60), 1));
    assert_eq!((ret, gas.spend(), out.len()), (Return::CallTooDeep, 0, 0));
    assert_eq!(evm.balance(at(0x60)).unwrap().0.limbs[0], 0x60);
    let (ret, address, _, _) = evm.create::<LondonSpec>(&mut create(1));
    assert_eq!((ret, address), (Return::CallTooDeep, None));
    assert_eq!(
        inspector.seen,
        vec!["call 96 false", "call_end CallTooDeep false", "create 64"]
    );
}

#[test]
fn the_hooks_of_the_host_reach_the_inspector() {
    let (mut db, mut env, mut inspector) = (Rich, env(), watcher());
    inspector.stop_step = true;
    let mut evm = Watched::new(&mut db, &mut env, &mut inspector, Precompiles::latest().clone());
    let mut machine = Talker { address: at(1), asked: 0, told: vec![] };
    assert_eq!(evm.step(&mut machine, true), Return::Stop);
    assert_eq!(evm.step_end(&mut machine, false, Return::Revert), Return::Continue);
    evm.log(at(2), vec![[0; 32]], vec![3]);
    assert_eq!(inspector.seen, vec!["step true", "step_end false Revert", "log 2 1 [3]"]);
    assert!(<Watched<'_> as Host>::INSPECT);
    assert!(!<Plain<'_, Rich> as Host>::INSPECT);
}

#[test]
fn a_precompile_is_charged_and_its_logs_are_kept() {
    let (mut db, mut env) = (EmptyDB, env());
    let mut data = EVMData {
        env: &mut env,
        journaled_state: JournaledState::new(9),
        db: &mut db,
        error: None,
    };
    let checkpoint = data.journaled_state.checkpoint();
    let output = PrecompileOutput {
        cost: 60,
        output: vec![4, 5],
        logs: vec![
            Log { address: at(1), topics: vec![[2; 32]], data: vec![3] },
            Log { address: at(1), topics: vec![], data: vec![4] },
        ],
    };
    let (ret, gas, out) = data.finish_precompile(Ok(output), Gas::new(100), checkpoint);
    assert_eq!((ret, gas.spend(), out), (Return::Continue, 60, vec![4, 5]));
    assert_eq!(data.journaled_state.depth(), 0);
    assert_eq!(data.journaled_state.logs.len(), 2);
    assert_eq!(data.journaled_state.logs[0].topics, vec![[2; 32]]);
    assert_eq!(data.journaled_state.logs[1].data, vec![4]);
}

#[test]
fn a_precompile_that_costs_too_much_or_fails_keeps_nothing() {
    let (mut db, mut env) = (EmptyDB, env());
    let mut data = EVMData {
        env: &mut env,
        journaled_state: JournaledState::new(9),
        db: &mut db,
        error: None,
    };
    for (answer, reason) in [
        (
            Ok(PrecompileOutput {
                cost: 101,
                output: vec![4, 5],
                logs: vec![Log { address: at(1), topics: vec![], data: vec![3] }],
            }),
            Return::OutOfGas,
        ),
        (Err(PrecompileFailure::OutOfGas), Return::OutOfGas),
        (Err(PrecompileFailure::Exit), Return::PrecompileError),
        (Err(PrecompileFailure::Other), Return::PrecompileError),
    ] {
        let checkpoint = data.journaled_state.checkpoint();
        data.journaled_state.load_account(at(0x60), data.db).unwrap();
        let (ret, gas, out) = data.finish_precompile(answer, Gas::new(100), checkpoint);
        assert_eq!((ret, gas.spend(), out.len()), (reason, 0, 0));
        assert_eq!(data.journaled_state.depth(), 0);
        assert!(data.journaled_state.logs.is_empty());
        assert!(!data.journaled_state.is_loaded(&at(0x60)));
    }
}

#[test]
fn init_code_that_returned_is_deposited() {
    let (mut db, mut env) = (EmptyDB, env());
    let mut data = EVMData {
        env: &mut env,
        journaled_state: JournaledState::new(9),
        db: &mut db,
        error: None,
    };
    data.journaled_state.load_account(at(0x60), data.db).unwrap();
    let checkpoint = data.journaled_state.checkpoint();
    let (heard, ret, gas, out) = data.finish_create::<LondonSpec, NoOpInterpreter>(
        Return::Return,
        Gas::new(1000),
        vec![1, 2, 3],
        at(0x60),
        checkpoint,
    );
    assert!(heard);
    assert_eq!((ret, gas.spend(), out.len()), (Return::Continue, 600, 0));
    let account = data.journaled_state.account(&at(0x60)).unwrap();
    assert_eq!(account.info.code.as_ref().unwrap().bytes, vec![1, 2, 3]);
    let checkpoint = data.journaled_state.checkpoint();
    let (heard, ret, gas, _) = data.finish_create::<LondonSpec, NoOpInterpreter>(
        Return::Stop,
        Gas::new(1000),
        vec![0xef],
        at(0x60),
        checkpoint,
    );
    assert!(!heard);
    assert_eq!((ret, gas.spend()), (Return::CreateContractWithEF, 0));
    let checkpoint = data.journaled_state.checkpoint();
    let (heard, ret, _, out) = data.finish_create::<LondonSpec, NoOpInterpreter>(
        Return::Revert,
        Gas::new(1000),
        vec![7],
        at(0x60),
        checkpoint,
    );
    assert!(heard);
    assert_eq!((ret, out), (Return::Revert, vec![7]));
    let checkpoint = data.journaled_state.checkpoint();
    data.journaled_state.inc_nonce(at(0x60)).unwrap();
    data.finish_run(Return::OutOfGas, checkpoint);
    assert_eq!(data.journaled_state.account(&at(0x60)).unwrap().info.nonce, 0);
    let checkpoint = data.journaled_state.checkpoint();
    data.journaled_state.inc_nonce(at(0x60)).unwrap();
    data.finish_run(Return::Stop, checkpoint);
    assert_eq!(data.journaled_state.account(&at(0x60)).unwrap().info.nonce, 1);
}

#[test]
fn a_self_destruct_is_announced_once_also_where_it_fails() {
    let (mut db, mut env, mut inspector) = (Rich, env(), watcher());
    let mut evm = Watched::new(&mut db, &mut env, &mut inspector, Precompiles::latest().clone());
    assert!(evm.selfdestruct(at(0x60), at(0x61)).is_none());
    evm.load_account(at(0x60)).unwrap();
    assert!(evm.selfdestruct(at(0x60), at(0x61)).unwrap().had_value);
    assert_eq!(inspector.seen, vec!["selfdestruct", "selfdestruct"]);
}

#[test]
fn a_create_of_the_host_goes_by_the_fork_that_it_is_asked_for() {
    let hash = |is_london: bool| {
        let (mut db, mut env, mut inspector) = (EmptyDB, env(), NoOpInspector);
        let mut evm = EVMImpl::<FrontierSpec, EmptyDB, NoOpInterpreter, false>::new(
            &mut db,
            &mut env,
            &mut inspector,
            Precompiles::latest().clone(),
        );
        let (ret, address, _, _) = if is_london {
            evm.create::<LondonSpec>(&mut create(0))
        } else {
            evm.create::<FrontierSpec>(&mut create(0))
        };
        assert_eq!(ret, Return::Continue);
        evm.code_hash(address.unwrap()).unwrap().0
    };
    // Since Spurious Dragon a new contract has a nonce, so that it is not empty.
    assert_eq!(hash(true), KECCAK_EMPTY);
    assert_eq!(hash(false), [0; 32]);
}

#[test]
fn a_transaction_is_the_same_for_an_inspector_that_never_steps_in() {
    let (mut db, mut env, mut inspector) = (Rich, env(), NoOpInspector);
    let mut evm = Watched::new(&mut db, &mut env, &mut inspector, Precompiles::latest().clone());
    let (watched, watched_state) = evm.transact();
    let mut evm = EVMImpl::<LondonSpec, Rich, Talker, false>::new(
        &mut db,
        &mut env,
        &mut inspector,
        Precompiles::latest().clone(),
    );
    let (plain, plain_state) = evm.transact();
    assert_eq!(watched.exit_reason, Return::Return);
    assert_eq!(watched.exit_reason, plain.exit_reason);
    assert_eq!((watched.gas_used, watched.gas_refunded), (plain.gas_used, plain.gas_refunded));
    assert_eq!(format!("{:?}", watched.out), format!("{:?}", plain.out));
    assert_eq!(format!("{:?}", watched.logs), format!("{:?}", plain.logs));
    let account = |state: &evm_impl::state::State, n: u8| format!("{:?}", state.get(&at(n)));
    for n in [0x40, 0x50, 0x60] {
        assert_eq!(account(&watched_state, n), account(&plain_state, n));
    }
}

#[test]
fn an_old_failure_does_not_disturb_what_comes_after_it() {
    let (mut db, mut env, mut inspector) = (Rich, env(), NoOpInspector);
    let mut evm = Plain::new(&mut db, &mut env, &mut inspector, Precompiles::latest().clone());
    let mut broken = at(1);
    broken[18] = 1;
    assert!(evm.load_account(broken).is_none());
    for _ in 0..1100 {
        let (ret, gas, _) = evm.call::<LondonSpec>(&mut call(at(0x60), 0));
        assert_eq!((ret, gas.spend()), (Return::Stop, 0));
    }
}

#[test]
fn a_static_machine_makes_its_call_statically() {
    let (mut db, mut env, mut inspector) = (Rich, env(), watcher());
    let mut evm = EVMImpl::<StaticSpec<LondonSpec>, Rich, Talker, true>::new(
        &mut db,
        &mut env,
        &mut inspector,
        Precompiles::latest().clone(),
    );
    let (result, _) = evm.transact();
    assert_eq!(result.exit_reason, Return::Return);
    assert_eq!(inspector.seen[0], "call 96 true");
    // A machine is always announced as no static one in a call.
    assert_eq!(inspector.seen[1], "initialize false");
    assert_eq!(inspector.seen[2], "step true");
    assert_eq!(inspector.seen.last().unwrap(), "call_end Return true");
}

#[test]
fn a_call_ends_the_same_on_machines_for_different_forks() {
    let (mut db, mut env, mut inspector) = (Rich, env(), NoOpInspector);
    let mut evm = EVMImpl::<LondonSpec, Rich, Talker, false>::new(
        &mut db,
        &mut env,
        &mut inspector,
        Precompiles::latest().clone(),
    );
    let (ret, gas, out) = evm.call::<LondonSpec>(&mut call(at(0x60), 0x10));
    let left = (evm.balance(at(0x40)).unwrap().0.limbs, evm.balance(at(0x60)).unwrap().0.limbs);
    let mut evm = EVMImpl::<BerlinSpec, Rich, Talker, false>::new(
        &mut db,
        &mut env,
        &mut inspector,
        Precompiles::latest().clone(),
    );
    let (other_ret, other_gas, other_out) = evm.call::<LondonSpec>(&mut call(at(0x60), 0x10));
    let other = (evm.balance(at(0x40)).unwrap().0.limbs, evm.balance(at(0x60)).unwrap().0.limbs);
    assert_eq!((ret, gas.spend(), out.clone()), (Return::Return, 10, vec![1, 1]));
    assert_eq!((other_ret, other_gas.spend(), other_out), (ret, gas.spend(), out));
    assert_eq!(left, other);
}
