use evm_impl::address::create_address;
use evm_impl::db::Database;
use evm_impl::evm_impl::{EVMImpl, Transact};
use evm_impl::inspector::NoOpInspector;
use evm_impl::interpreter::{Contract, Exit, Interpreter, NoOpInterpreter, Reply, Request};
use evm_impl::models::{
    AccountInfo, AnalysisKind, BlockEnv, Bytecode, CallContext, CallInputs, CallScheme, CfgEnv,
    CreateInputs, CreateScheme, Env, ExecutionResult, Return, TransactOut, TransactTo, Transfer,
    TxEnv,
};
use evm_impl::primitives::{H160, H256, U256};
use evm_impl::spec_id::{
    BerlinSpec, FrontierSpec, HomesteadSpec, IstanbulSpec, LatestSpec, LondonSpec, Spec, SpecId,
    SpuriousDragonSpec,
};
use evm_impl::state::State;
use revm_precompiles::Precompiles;

const CALLER: H160 = at(0x40);
const COINBASE: H160 = at(0x50);
const TARGET: H160 = at(0x60);
const OTHER: H160 = at(0x61);

const fn at(n: u8) -> H160 {
    let mut address = [0; 20];
    address[19] = n;
    address
}

fn word(n: u64) -> U256 {
    U256::from_u64(n)
}

struct Known {
    address: H160,
    balance: U256,
    nonce: u64,
    code: Vec<u8>,
}

struct MemoryDb {
    accounts: Vec<Known>,
    slots: Vec<(H160, u64, u64)>,
    broken: Vec<H160>,
    broken_code: bool,
    broken_slots: bool,
    asked: u64,
}

impl MemoryDb {
    fn with(mut self, address: H160, balance: u64, nonce: u64, code: &[u8]) -> Self {
        self.accounts.retain(|known| known.address != address);
        self.accounts.push(Known {
            address,
            balance: word(balance),
            nonce,
            code: code.to_vec(),
        });
        self
    }
}

impl Database for MemoryDb {
    type Error = &'static str;

    fn basic(&mut self, address: H160) -> Result<Option<AccountInfo>, &'static str> {
        self.asked += 1;
        if self.broken.contains(&address) {
            return Err("broken account");
        }
        Ok(self.accounts.iter().find(|known| known.address == address).map(|known| AccountInfo {
            balance: known.balance,
            nonce: known.nonce,
            code_hash: Bytecode::new_raw(known.code.clone()).hash,
            code: None,
        }))
    }

    fn code_by_hash(&mut self, hash: H256) -> Result<Bytecode, &'static str> {
        if self.broken_code {
            return Err("broken code");
        }
        let known = self
            .accounts
            .iter()
            .find(|known| Bytecode::new_raw(known.code.clone()).hash == hash);
        Ok(Bytecode::new_raw(known.map(|known| known.code.clone()).unwrap_or_default()))
    }

    fn storage(&mut self, address: H160, index: U256) -> Result<U256, &'static str> {
        if self.broken_slots {
            return Err("broken slot");
        }
        let found = self.slots.iter().find(|slot| slot.0 == address && slot.1 == index.limbs[0]);
        Ok(word(found.map(|slot| slot.2).unwrap_or_default()))
    }

    fn block_hash(&mut self, number: U256) -> Result<H256, &'static str> {
        let mut hash = [0; 32];
        hash[31] = number.limbs[0] as u8;
        Ok(hash)
    }
}

fn empty_db() -> MemoryDb {
    MemoryDb {
        accounts: vec![],
        slots: vec![],
        broken: vec![],
        broken_code: false,
        broken_slots: false,
        asked: 0,
    }
}

fn db() -> MemoryDb {
    empty_db().with(CALLER, 1_000_000, 0, &[])
}

fn env() -> Env {
    Env {
        cfg: CfgEnv {
            chain_id: word(1),
            perf_all_precompiles_have_balance: false,
            perf_analyse_created_bytecodes: AnalysisKind::Analyse,
            limit_contract_code_size: None,
        },
        block: BlockEnv {
            gas_limit: word(1_000_000),
            number: word(1),
            coinbase: COINBASE,
            timestamp: word(1),
            difficulty: word(1),
            basefee: word(0),
        },
        tx: TxEnv {
            caller: CALLER,
            gas_limit: 100_000,
            gas_price: word(1),
            gas_priority_fee: None,
            transact_to: TransactTo::Call(TARGET),
            value: word(0),
            data: vec![],
            access_list: vec![],
        },
    }
}

// A machine whose code is a list of questions. Every byte of code costs one unit of gas.
const RETURN: u8 = 0x01; // n, and n bytes
const RETURN_REPLY: u8 = 0x02;
const REVERT: u8 = 0x03; // n, and n bytes
const BAD: u8 = 0x04;
const SPEND: u8 = 0x05; // hundreds
const REFUND: u8 = 0x06; // hundreds
const OWE: u8 = 0x07; // hundreds
const BALANCE: u8 = 0x10; // address
const ACCOUNT: u8 = 0x11; // address
const SLOAD: u8 = 0x14; // index
const SSTORE: u8 = 0x15; // index, value
const LOG: u8 = 0x16; // topic, data
const DESTROY: u8 = 0x17; // target
const CALL: u8 = 0x20; // address, value
const CREATE: u8 = 0x21; // value, n, and n bytes
const CREATE2: u8 = 0x22; // salt, value, n, and n bytes
const STEP: u8 = 0x30;
const STEP_END: u8 = 0x31;

struct Script {
    contract: Contract,
    gas_limit: u64,
    pc: usize,
    spent: u64,
    refunded: i64,
    last: Vec<u8>,
}

impl Script {
    fn next(&mut self) -> u8 {
        let byte = self.contract.bytecode.bytes.get(self.pc).copied().unwrap_or_default();
        self.pc += 1;
        self.spent += 1;
        byte
    }

    fn bytes(&mut self) -> Vec<u8> {
        let n = self.next();
        (0..n).map(|_| self.next()).collect()
    }

    fn exit(&mut self, reason: Return, output: Vec<u8>) -> Request {
        Request::Exit {
            exit: Exit { reason, spent: self.spent, refunded: self.refunded, output },
        }
    }

    fn left(&self) -> u64 {
        self.gas_limit.saturating_sub(self.spent)
    }

    fn create(&mut self, scheme: CreateScheme) -> Request {
        let value = word(self.next() as u64);
        let init_code = self.bytes();
        let gas_limit = self.left();
        Request::Create {
            create: CreateInputs {
                caller: self.contract.address,
                scheme,
                value,
                init_code,
                gas_limit,
            },
        }
    }
}

impl Interpreter for Script {
    fn check(bytes: &Vec<u8>) -> Vec<u8> {
        // Two more bytes, so that every argument is there.
        [bytes.as_slice(), &[0, 0]].concat()
    }

    fn analyse(bytes: &Vec<u8>, spec_id: SpecId) -> Vec<u8> {
        vec![bytes.len() as u8, spec_id as u8]
    }

    fn new(contract: Contract, gas_limit: u64, _spec_id: SpecId, _is_static: bool) -> Self {
        Script { contract, gas_limit, pc: 0, spent: 0, refunded: 0, last: vec![] }
    }

    fn resume(&mut self, _env: &Env, reply: Reply) -> Request {
        self.last = format!("{:?}", reply).into_bytes();
        if let Reply::Call { gas, .. } | Reply::Create { gas, .. } = &reply {
            self.spent += gas.spend();
        }
        loop {
            if self.pc >= self.contract.bytecode.bytes.len() {
                return self.exit(Return::Stop, vec![]);
            }
            let address = self.contract.address;
            match self.next() {
                RETURN => {
                    let output = self.bytes();
                    return self.exit(Return::Return, output);
                }
                RETURN_REPLY => {
                    let output = self.last.clone();
                    return self.exit(Return::Return, output);
                }
                REVERT => {
                    let output = self.bytes();
                    return self.exit(Return::Revert, output);
                }
                SPEND => self.spent += 100 * self.next() as u64,
                REFUND => self.refunded += 100 * self.next() as i64,
                OWE => self.refunded -= 100 * self.next() as i64,
                BALANCE => return Request::Balance { address: at(self.next()) },
                ACCOUNT => return Request::LoadAccount { address: at(self.next()) },
                SLOAD => return Request::Sload { address, index: word(self.next() as u64) },
                SSTORE => {
                    let index = word(self.next() as u64);
                    let value = word(self.next() as u64);
                    return Request::Sstore { address, index, value };
                }
                LOG => {
                    let topics = vec![[self.next(); 32]];
                    let data = vec![self.next()];
                    return Request::Log { address, topics, data };
                }
                DESTROY => return Request::SelfDestruct { address, target: at(self.next()) },
                CALL => {
                    let contract = at(self.next());
                    let value = word(self.next() as u64);
                    let gas_limit = self.left();
                    return Request::Call {
                        call: CallInputs {
                            contract,
                            transfer: Transfer { source: address, target: contract, value },
                            input: vec![],
                            gas_limit,
                            context: CallContext {
                                address: contract,
                                caller: address,
                                code_address: contract,
                                apparent_value: value,
                                scheme: CallScheme::Call,
                            },
                        },
                        is_static: false,
                    };
                }
                CREATE => return self.create(CreateScheme::Create),
                CREATE2 => {
                    let salt = word(self.next() as u64);
                    return self.create(CreateScheme::Create2 { salt });
                }
                STEP => return Request::Step,
                STEP_END => return Request::StepEnd { ret: Return::Continue },
                _ => return self.exit(Return::OpcodeNotFound, vec![]),
            }
        }
    }
}

fn transact<GSPEC: Spec>(db: &mut MemoryDb, env: &mut Env) -> (ExecutionResult, State) {
    let mut inspector = NoOpInspector;
    let mut evm = EVMImpl::<GSPEC, MemoryDb, Script, false>::new(
        db,
        env,
        &mut inspector,
        Precompiles::latest().clone(),
    );
    evm.transact()
}

fn code(mut db: MemoryDb, code: &[u8]) -> MemoryDb {
    db = db.with(TARGET, 0, 1, code);
    db
}

/// Runs code of the target, and returns the result and the state.
fn run<GSPEC: Spec>(bytes: &[u8]) -> (ExecutionResult, State) {
    transact::<GSPEC>(&mut code(db(), bytes), &mut env())
}

fn balance(state: &State, address: H160) -> u64 {
    state.get(&address).unwrap().info.balance.limbs[0]
}

fn slot(state: &State, address: H160, index: u64) -> u64 {
    let account = state.get(&address).unwrap();
    account.storage.get(&word(index)).unwrap().present_value.limbs[0]
}

fn output(result: &ExecutionResult) -> Vec<u8> {
    match &result.out {
        TransactOut::Call(bytes) => bytes.clone(),
        TransactOut::Create(bytes, _) => bytes.clone(),
        TransactOut::Nothing => panic!("no output"),
    }
}

fn text(result: &ExecutionResult) -> String {
    String::from_utf8(output(result)).unwrap()
}

fn addresses(state: &State) -> Vec<H160> {
    let mut addresses = state.addresses();
    addresses.sort();
    addresses
}

fn is_refused(outcome: (ExecutionResult, State), reason: Return) {
    let (result, state) = outcome;
    assert_eq!(result.exit_reason, reason);
    assert!(matches!(result.out, TransactOut::Nothing));
    assert_eq!((result.gas_used, result.gas_refunded), (0, 0));
    assert!(result.logs.is_empty());
    assert!(state.addresses().is_empty());
}

#[test]
fn a_plain_transfer() {
    let mut db = db();
    let mut env = env();
    env.tx.value = word(7);
    let (result, state) = transact::<LondonSpec>(&mut db, &mut env);
    assert_eq!(result.exit_reason, Return::Stop);
    assert!(matches!(&result.out, TransactOut::Call(bytes) if bytes.is_empty()));
    assert_eq!((result.gas_used, result.gas_refunded), (21000, 0));
    assert!(result.logs.is_empty());
    assert_eq!(addresses(&state), vec![CALLER, COINBASE, TARGET]);
    assert_eq!(balance(&state, CALLER), 1_000_000 - 7 - 21000);
    assert_eq!(balance(&state, TARGET), 7);
    assert_eq!(balance(&state, COINBASE), 21000);
    assert_eq!(state.get(&CALLER).unwrap().info.nonce, 1);
}

#[test]
fn a_plain_transfer_on_a_machine_that_runs_nothing() {
    let mut db = code(db(), &[BAD]);
    let mut env = env();
    env.tx.value = word(7);
    let mut inspector = NoOpInspector;
    let mut evm = EVMImpl::<LondonSpec, MemoryDb, NoOpInterpreter, false>::new(
        &mut db,
        &mut env,
        &mut inspector,
        Precompiles::latest().clone(),
    );
    let (result, state) = evm.transact();
    assert_eq!(result.exit_reason, Return::Stop);
    assert_eq!(result.gas_used, 21000);
    assert_eq!(balance(&state, TARGET), 7);
}

#[test]
fn a_machine_can_do_one_transaction_after_the_other() {
    let mut db = db();
    let mut env = env();
    let mut inspector = NoOpInspector;
    let mut evm = EVMImpl::<LondonSpec, MemoryDb, Script, false>::new(
        &mut db,
        &mut env,
        &mut inspector,
        Precompiles::latest().clone(),
    );
    let first = evm.transact();
    let second = evm.transact();
    assert_eq!(addresses(&first.1), addresses(&second.1));
    assert_eq!(balance(&first.1, CALLER), balance(&second.1, CALLER));
}

#[test]
fn a_priority_fee_above_the_price_is_refused() {
    let mut env = env();
    env.tx.gas_priority_fee = Some(word(2));
    let mut db = db();
    is_refused(transact::<LondonSpec>(&mut db, &mut env), Return::GasMaxFeeGreaterThanPriorityFee);
    assert_eq!(db.asked, 0);
    assert_eq!(transact::<BerlinSpec>(&mut db, &mut env).0.exit_reason, Return::Stop);
}

#[test]
fn a_price_below_the_base_fee_is_refused() {
    let mut env = env();
    env.block.basefee = word(2);
    let mut db = db();
    is_refused(transact::<LondonSpec>(&mut db, &mut env), Return::GasPriceLessThenBasefee);
    assert_eq!(db.asked, 0);
    assert_eq!(transact::<BerlinSpec>(&mut db, &mut env).0.exit_reason, Return::Stop);
}

#[test]
fn a_gas_limit_above_that_of_the_block_is_refused() {
    let mut env = env();
    env.tx.gas_limit = 1_000_001;
    is_refused(transact::<LondonSpec>(&mut db(), &mut env), Return::CallerGasLimitMoreThenBlock);
    env.tx.gas_limit = 1_000_000;
    assert_eq!(transact::<LondonSpec>(&mut db(), &mut env).0.exit_reason, Return::Stop);
}

#[test]
fn a_gas_limit_below_the_first_costs_is_refused() {
    let mut env = env();
    env.tx.gas_limit = 20_999;
    is_refused(transact::<LondonSpec>(&mut db(), &mut env), Return::OutOfGas);
    env.tx.gas_limit = 21_000;
    assert_eq!(transact::<LondonSpec>(&mut db(), &mut env).0.exit_reason, Return::Stop);
}

#[test]
fn a_caller_that_cannot_be_loaded_is_fatal() {
    let mut db = db();
    db.broken.push(CALLER);
    is_refused(transact::<LondonSpec>(&mut db, &mut env()), Return::FatalExternalError);
}

#[test]
fn a_payment_that_does_not_fit_a_word_is_refused() {
    let mut env = env();
    env.tx.gas_price = U256::max_value();
    is_refused(transact::<LondonSpec>(&mut db(), &mut env), Return::OverflowPayment);
}

#[test]
fn a_caller_has_to_pay_for_all_the_gas() {
    let mut db = db().with(CALLER, 99_999, 0, &[]);
    is_refused(transact::<LondonSpec>(&mut db, &mut env()), Return::LackOfFundForGasLimit);
    let mut db = db.with(CALLER, 100_000, 0, &[]);
    assert_eq!(transact::<LondonSpec>(&mut db, &mut env()).0.exit_reason, Return::Stop);
}

#[test]
fn a_caller_has_to_have_the_value_left() {
    let mut db = db().with(CALLER, 100_004, 0, &[]);
    let mut env = env();
    env.tx.value = word(5);
    is_refused(transact::<LondonSpec>(&mut db, &mut env), Return::OutOfFund);
    env.tx.value = U256::max_value();
    is_refused(transact::<LondonSpec>(&mut db, &mut env), Return::OutOfFund);
    env.tx.value = word(4);
    assert_eq!(transact::<LondonSpec>(&mut db, &mut env).0.exit_reason, Return::Stop);
}

#[test]
fn the_part_of_the_price_that_is_not_charged_has_to_be_there() {
    let mut env = env();
    env.block.basefee = word(1);
    env.tx.gas_price = word(10);
    env.tx.gas_priority_fee = Some(word(2));
    env.tx.value = word(1);
    let mut db = db().with(CALLER, 300_007, 0, &[]);
    is_refused(transact::<LondonSpec>(&mut db, &mut env), Return::OutOfFund);
    let mut db = db.with(CALLER, 300_008, 0, &[]);
    assert_eq!(transact::<LondonSpec>(&mut db, &mut env).0.exit_reason, Return::Stop);
}

#[test]
fn the_highest_nonce_is_refused() {
    let mut db = db().with(CALLER, 1_000_000, u64::MAX, &[]);
    is_refused(transact::<LondonSpec>(&mut db, &mut env()), Return::NonceOverflow);
}

#[test]
fn a_create_with_the_highest_nonce_does_nothing() {
    let mut db = db().with(CALLER, 1_000_000, u64::MAX, &[]);
    let mut env = env();
    env.tx.transact_to = TransactTo::Create(CreateScheme::Create);
    let (result, _) = transact::<LondonSpec>(&mut db, &mut env);
    assert_eq!(result.exit_reason, Return::Return);
    assert!(matches!(&result.out, TransactOut::Create(bytes, None) if bytes.is_empty()));
    assert_eq!(result.gas_used, 53000);
}

#[test]
fn the_beneficiary_does_not_get_the_base_fee() {
    let mut env = env();
    env.block.basefee = word(3);
    env.tx.gas_price = word(10);
    env.tx.gas_priority_fee = Some(word(2));
    let (result, state) = transact::<LondonSpec>(&mut db(), &mut env);
    assert_eq!(result.gas_used, 21000);
    assert_eq!(balance(&state, CALLER), 1_000_000 - 5 * 21000);
    assert_eq!(balance(&state, COINBASE), 2 * 21000);
    let (_, state) = transact::<BerlinSpec>(&mut db(), &mut env);
    assert_eq!(balance(&state, COINBASE), 5 * 21000);
}

#[test]
fn a_beneficiary_that_cannot_be_loaded_gets_nothing() {
    let mut db = db();
    db.broken.push(COINBASE);
    let (result, state) = transact::<LondonSpec>(&mut db, &mut env());
    assert_eq!(result.exit_reason, Return::Stop);
    assert_eq!(addresses(&state), vec![CALLER, TARGET]);
}

#[test]
fn balances_do_not_go_beyond_the_largest_word() {
    let mut db = db();
    db.accounts.push(Known {
        address: COINBASE,
        balance: U256::max_value(),
        nonce: 0,
        code: vec![],
    });
    let (_, state) = transact::<LondonSpec>(&mut db, &mut env());
    assert_eq!(state.get(&COINBASE).unwrap().info.balance.limbs, [u64::MAX; 4]);
}

#[test]
fn data_costs_less_since_istanbul() {
    let mut env = env();
    env.tx.data = vec![0, 1, 2];
    let used = |outcome: (ExecutionResult, State)| outcome.0.gas_used;
    assert_eq!(used(transact::<IstanbulSpec>(&mut db(), &mut env)), 21000 + 4 + 2 * 16);
    assert_eq!(used(transact::<SpuriousDragonSpec>(&mut db(), &mut env)), 21000 + 4 + 2 * 68);
}

#[test]
fn a_create_costs_more_since_homestead() {
    let mut env = env();
    env.tx.transact_to = TransactTo::Create(CreateScheme::Create);
    let used = |outcome: (ExecutionResult, State)| outcome.0.gas_used;
    assert_eq!(used(transact::<FrontierSpec>(&mut db(), &mut env)), 21000);
    assert_eq!(used(transact::<HomesteadSpec>(&mut db(), &mut env)), 53000);
}

#[test]
fn an_access_list_is_paid_for_and_warm() {
    let mut env = env();
    env.tx.access_list = vec![(OTHER, vec![word(1), word(2)]), (TARGET, vec![word(3)])];
    let mut db = code(db(), &[ACCOUNT, 0x61, RETURN_REPLY]);
    let (result, _) = transact::<BerlinSpec>(&mut db, &mut env);
    assert_eq!(result.gas_used, 21000 + 2 * 2400 + 3 * 1900 + 3);
    assert_eq!(text(&result), "LoadAccount { account: Some((false, true)) }");
    let (result, _) = transact::<IstanbulSpec>(&mut db, &mut env);
    assert_eq!(result.gas_used, 21000 + 3);
    assert_eq!(text(&result), "LoadAccount { account: Some((true, true)) }");
}

#[test]
fn a_slot_of_the_access_list_is_warm() {
    let mut env = env();
    env.tx.access_list = vec![(TARGET, vec![word(3)])];
    let mut db = code(db(), &[SLOAD, 3, RETURN_REPLY]);
    db.slots.push((TARGET, 3, 9));
    let (result, _) = transact::<BerlinSpec>(&mut db, &mut env);
    assert_eq!(text(&result), "Sload { slot: Some((U256 { limbs: [9, 0, 0, 0] }, false)) }");
    env.tx.access_list = vec![];
    let (result, _) = transact::<BerlinSpec>(&mut db, &mut env);
    assert_eq!(text(&result), "Sload { slot: Some((U256 { limbs: [9, 0, 0, 0] }, true)) }");
}

#[test]
fn an_access_list_that_cannot_be_loaded_is_passed_over() {
    let mut env = env();
    env.tx.access_list = vec![(OTHER, vec![word(1)]), (TARGET, vec![word(1)])];
    let mut db = db();
    db.broken.push(OTHER);
    db.broken_slots = true;
    let (result, _) = transact::<BerlinSpec>(&mut db, &mut env);
    assert_eq!(result.exit_reason, Return::Stop);
    assert_eq!(result.gas_used, 21000 + 2 * 2400 + 2 * 1900);
}

#[test]
fn code_is_run_and_paid_for() {
    let (result, state) = run::<LondonSpec>(&[SSTORE, 1, 5, SPEND, 3, RETURN, 2, 8, 9]);
    assert_eq!(result.exit_reason, Return::Return);
    assert_eq!(output(&result), vec![8, 9]);
    assert_eq!(result.gas_used, 21000 + 300 + 9);
    assert_eq!(slot(&state, TARGET, 1), 5);
    assert_eq!(balance(&state, COINBASE), 21309);
    assert_eq!(balance(&state, CALLER), 1_000_000 - 21309);
}

#[test]
fn what_was_written_is_read() {
    let (result, _) = run::<LondonSpec>(&[SSTORE, 1, 5, SLOAD, 1, RETURN_REPLY]);
    assert_eq!(text(&result), "Sload { slot: Some((U256 { limbs: [5, 0, 0, 0] }, false)) }");
}

#[test]
fn a_write_says_what_was_there() {
    let mut db = code(db(), &[SSTORE, 1, 5, SSTORE, 1, 6, RETURN_REPLY]);
    db.slots.push((TARGET, 1, 4));
    let (result, _) = transact::<LondonSpec>(&mut db, &mut env());
    assert_eq!(
        text(&result),
        "Sstore { written: Some((U256 { limbs: [4, 0, 0, 0] }, U256 { limbs: [5, 0, 0, 0] }, \
         U256 { limbs: [6, 0, 0, 0] }, false)) }"
    );
}

#[test]
fn a_revert_gives_back_gas_and_undoes_the_rest() {
    let mut env = env();
    env.tx.value = word(7);
    let mut db = code(db(), &[SSTORE, 1, 5, LOG, 1, 2, REFUND, 9, REVERT, 1, 0xaa]);
    let (result, state) = transact::<LondonSpec>(&mut db, &mut env);
    assert_eq!(result.exit_reason, Return::Revert);
    assert_eq!(output(&result), vec![0xaa]);
    assert_eq!((result.gas_used, result.gas_refunded), (21000 + 11, 0));
    assert!(result.logs.is_empty());
    assert_eq!(addresses(&state), vec![CALLER, COINBASE]);
    assert_eq!(balance(&state, CALLER), 1_000_000 - 21011);
    assert_eq!(state.get(&CALLER).unwrap().info.nonce, 1);
}

#[test]
fn a_halt_uses_all_gas() {
    let (result, state) = run::<LondonSpec>(&[SSTORE, 1, 5, BAD]);
    assert_eq!(result.exit_reason, Return::OpcodeNotFound);
    assert_eq!((result.gas_used, result.gas_refunded), (100_000, 0));
    assert_eq!(balance(&state, CALLER), 900_000);
    assert_eq!(addresses(&state), vec![CALLER, COINBASE]);
}

#[test]
fn a_refund_is_at_most_a_part_of_what_was_spent() {
    let (result, state) = run::<LondonSpec>(&[REFUND, 10]);
    assert_eq!((result.gas_used, result.gas_refunded), (21002 - 1000, 1000));
    assert_eq!(balance(&state, CALLER), 1_000_000 - 20002);
    let (result, _) = run::<LondonSpec>(&[REFUND, 200]);
    assert_eq!((result.gas_used, result.gas_refunded), (21002 - 4200, 4200));
    let (result, _) = run::<BerlinSpec>(&[REFUND, 200]);
    assert_eq!((result.gas_used, result.gas_refunded), (21002 - 10501, 10501));
}

#[test]
fn a_negative_refund_counts_as_the_largest() {
    let (result, _) = run::<LondonSpec>(&[OWE, 1]);
    assert_eq!((result.gas_used, result.gas_refunded), (21002 - 4200, 4200));
}

#[test]
fn logs_are_kept_in_order() {
    let (result, _) = run::<LondonSpec>(&[LOG, 1, 2, LOG, 3, 4]);
    assert_eq!(result.logs.len(), 2);
    assert_eq!(result.logs[0].address, TARGET);
    assert_eq!(result.logs[0].topics, vec![[1; 32]]);
    assert_eq!(result.logs[0].data, vec![2]);
    assert_eq!(result.logs[1].data, vec![4]);
}

#[test]
fn a_failed_inner_call_leaves_nothing_behind() {
    let mut db = code(db(), &[SSTORE, 1, 5, LOG, 1, 1, CALL, 0x61, 3, RETURN_REPLY]);
    db = db.with(TARGET, 10, 1, &[SSTORE, 1, 5, LOG, 1, 1, CALL, 0x61, 3, RETURN_REPLY]);
    db = db.with(OTHER, 0, 1, &[SSTORE, 2, 6, LOG, 2, 2, REVERT, 1, 0xbb]);
    let (result, state) = transact::<LondonSpec>(&mut db, &mut env());
    assert_eq!(result.exit_reason, Return::Return);
    assert!(text(&result).starts_with("Call { ret: Revert"));
    assert!(text(&result).ends_with("output: [187] }"));
    assert_eq!(result.logs.len(), 1);
    assert_eq!(slot(&state, TARGET, 1), 5);
    assert_eq!(balance(&state, TARGET), 10);
    assert!(state.get(&OTHER).is_none());
}

#[test]
fn an_inner_call_that_succeeds_stays() {
    let mut db = db()
        .with(TARGET, 10, 1, &[CALL, 0x61, 3, RETURN_REPLY])
        .with(OTHER, 0, 1, &[SSTORE, 2, 6, LOG, 2, 2, RETURN, 1, 0xcc]);
    let (result, state) = transact::<LondonSpec>(&mut db, &mut env());
    assert!(text(&result).starts_with("Call { ret: Return"));
    assert!(text(&result).ends_with("output: [204] }"));
    assert_eq!(result.logs.len(), 1);
    assert_eq!(slot(&state, OTHER, 2), 6);
    assert_eq!(balance(&state, TARGET), 7);
    assert_eq!(balance(&state, OTHER), 3);
    assert_eq!(result.gas_used, 21000 + 4 + 9);
}

#[test]
fn an_outer_failure_undoes_an_inner_success() {
    let mut db = db()
        .with(TARGET, 10, 1, &[CALL, 0x61, 3, REVERT, 0])
        .with(OTHER, 0, 1, &[SSTORE, 2, 6, LOG, 2, 2]);
    let (result, state) = transact::<LondonSpec>(&mut db, &mut env());
    assert_eq!(result.exit_reason, Return::Revert);
    assert!(result.logs.is_empty());
    assert_eq!(addresses(&state), vec![CALLER, COINBASE]);
}

#[test]
fn an_inner_call_without_the_funds_is_refused() {
    let mut db = db().with(TARGET, 2, 1, &[CALL, 0x61, 3, RETURN_REPLY]);
    let (result, _) = transact::<LondonSpec>(&mut db, &mut env());
    assert!(text(&result).starts_with("Call { ret: OutOfFund"));
}

#[test]
fn a_call_that_overflows_a_balance_is_refused() {
    let mut db = db().with(TARGET, 2, 1, &[CALL, 0x61, 1, RETURN_REPLY]);
    db.accounts.push(Known {
        address: OTHER,
        balance: U256::max_value(),
        nonce: 0,
        code: vec![],
    });
    let (result, _) = transact::<LondonSpec>(&mut db, &mut env());
    assert!(text(&result).starts_with("Call { ret: OverflowPayment"));
}

#[test]
fn an_account_that_cannot_be_loaded_fails_the_call() {
    let mut db = code(db(), &[CALL, 0x61, 0, RETURN_REPLY]);
    db.broken.push(OTHER);
    let (result, _) = transact::<LondonSpec>(&mut db, &mut env());
    assert!(text(&result).starts_with("Call { ret: FatalExternalError"));
    db.broken = vec![TARGET];
    let (result, state) = transact::<LondonSpec>(&mut db, &mut env());
    assert_eq!(result.exit_reason, Return::FatalExternalError);
    assert_eq!(result.gas_used, 100_000);
    assert_eq!(addresses(&state), vec![CALLER, COINBASE]);
}

#[test]
fn code_that_cannot_be_loaded_fails_the_call() {
    let mut db = code(db(), &[BAD]);
    db.broken_code = true;
    let (result, _) = transact::<LondonSpec>(&mut db, &mut env());
    assert_eq!(result.exit_reason, Return::FatalExternalError);
}

fn create<GSPEC: Spec>(db: &mut MemoryDb, env: &mut Env, init: &[u8]) -> (ExecutionResult, State) {
    env.tx.transact_to = TransactTo::Create(CreateScheme::Create);
    env.tx.data = init.to_vec();
    transact::<GSPEC>(db, env)
}

#[test]
fn a_contract_is_created() {
    let mut env = env();
    env.tx.value = word(7);
    let (result, state) = create::<LondonSpec>(&mut db(), &mut env, &[RETURN, 2, 0xaa, 0xbb]);
    let address = create_address(CALLER, 0);
    assert_eq!(result.exit_reason, Return::Continue);
    assert!(matches!(
        &result.out,
        TransactOut::Create(bytes, Some(made)) if bytes.is_empty() && *made == address
    ));
    assert_eq!(result.gas_used, 53000 + 4 * 16 + 4 + 2 * 200);
    let account = state.get(&address).unwrap();
    let code = account.info.code.as_ref().unwrap();
    assert_eq!(code.bytes, vec![0xaa, 0xbb]);
    assert_eq!(code.analysis, AnalysisKind::Analyse);
    assert_eq!(account.info.code_hash, Bytecode::new_raw(vec![0xaa, 0xbb]).hash);
    assert_eq!(account.info.nonce, 1);
    assert!(account.storage_cleared);
    assert_eq!(balance(&state, address), 7);
    assert_eq!(state.get(&CALLER).unwrap().info.nonce, 1);
}

#[test]
fn a_contract_has_no_nonce_before_spurious_dragon() {
    let (_, state) = create::<HomesteadSpec>(&mut db(), &mut env(), &[RETURN, 1, 0xaa]);
    assert_eq!(state.get(&create_address(CALLER, 0)).unwrap().info.nonce, 0);
}

#[test]
fn code_is_prepared_as_far_as_the_settings_say() {
    let made = |kind: AnalysisKind, is_london: bool| {
        let mut env = env();
        env.cfg.perf_analyse_created_bytecodes = kind;
        let init = [RETURN, 1, 0xaa];
        let (_, state) = if is_london {
            create::<LondonSpec>(&mut db(), &mut env, &init)
        } else {
            create::<BerlinSpec>(&mut db(), &mut env, &init)
        };
        let account = state.get(&create_address(CALLER, 0)).unwrap();
        let code = account.info.code.as_ref().unwrap();
        assert_eq!((code.analysis, code.bytes.clone()), (kind, vec![0xaa]));
        assert_eq!(code.hash, Bytecode::new_raw(vec![0xaa]).hash);
        code.table.clone()
    };
    assert_eq!(made(AnalysisKind::Raw, true), vec![]);
    assert_eq!(made(AnalysisKind::Check, true), vec![0xaa, 0, 0]);
    assert_eq!(made(AnalysisKind::Analyse, true), vec![1, SpecId::LONDON as u8]);
    assert_eq!(made(AnalysisKind::Analyse, false), vec![1, SpecId::BERLIN as u8]);
}

#[test]
fn code_must_not_begin_with_ef_since_london() {
    let init = [RETURN, 2, 0xef, 0x00];
    let (result, state) = create::<LondonSpec>(&mut db(), &mut env(), &init);
    assert_eq!(result.exit_reason, Return::CreateContractWithEF);
    assert!(state.get(&create_address(CALLER, 0)).is_none());
    assert_eq!(state.get(&CALLER).unwrap().info.nonce, 1);
    assert_eq!(result.gas_used, 100_000);
    let (result, _) = create::<BerlinSpec>(&mut db(), &mut env(), &init);
    assert_eq!(result.exit_reason, Return::Continue);
}

#[test]
fn code_must_not_be_too_long_since_spurious_dragon() {
    let mut env = env();
    env.cfg.limit_contract_code_size = Some(1);
    let init = [RETURN, 2, 1, 2];
    let (result, _) = create::<SpuriousDragonSpec>(&mut db(), &mut env, &init);
    assert_eq!(result.exit_reason, Return::CreateContractLimit);
    let (result, _) = create::<HomesteadSpec>(&mut db(), &mut env, &init);
    assert_eq!(result.exit_reason, Return::Continue);
    env.cfg.limit_contract_code_size = Some(2);
    let (result, _) = create::<LatestSpec>(&mut db(), &mut env, &init);
    assert_eq!(result.exit_reason, Return::Continue);
}

#[test]
fn a_deposit_has_to_be_paid_since_homestead() {
    let init = [RETURN, 2, 1, 2];
    let mut env = env();
    env.tx.gas_limit = 53000 + 4 * 68 + 4 + 399;
    let (result, state) = create::<HomesteadSpec>(&mut db(), &mut env, &init);
    assert_eq!(result.exit_reason, Return::OutOfGas);
    assert!(state.get(&create_address(CALLER, 0)).is_none());
    env.tx.gas_limit += 1;
    let (result, _) = create::<HomesteadSpec>(&mut db(), &mut env, &init);
    assert_eq!(result.exit_reason, Return::Continue);
    env.tx.gas_limit = 21000 + 4 * 68 + 4 + 399;
    let (result, state) = create::<FrontierSpec>(&mut db(), &mut env, &init);
    assert_eq!(result.exit_reason, Return::Continue);
    assert_eq!(result.gas_used, 21000 + 4 * 68 + 4);
    let account = state.get(&create_address(CALLER, 0)).unwrap();
    assert!(account.info.code.as_ref().unwrap().bytes.is_empty());
}

#[test]
fn init_code_that_fails_leaves_no_contract() {
    let mut env = env();
    env.tx.value = word(7);
    let (result, state) = create::<LondonSpec>(&mut db(), &mut env, &[LOG, 1, 1, REVERT, 1, 9]);
    assert_eq!(result.exit_reason, Return::Revert);
    assert_eq!(output(&result), vec![9]);
    assert!(result.logs.is_empty());
    assert!(state.get(&create_address(CALLER, 0)).is_none());
    assert_eq!(state.get(&CALLER).unwrap().info.nonce, 1);
    assert_eq!(balance(&state, CALLER), 1_000_000 - result.gas_used);
}

#[test]
fn a_contract_is_not_created_over_another() {
    let address = create_address(CALLER, 0);
    let mut db = db().with(address, 1, 0, &[1]);
    let (result, _) = create::<LondonSpec>(&mut db, &mut env(), &[]);
    assert_eq!(result.exit_reason, Return::CreateCollision);
    let mut db = db.with(address, 1, 1, &[]);
    let (result, _) = create::<LondonSpec>(&mut db, &mut env(), &[]);
    assert_eq!(result.exit_reason, Return::CreateCollision);
    let mut db = db.with(address, 1, 0, &[]);
    let (result, state) = create::<LondonSpec>(&mut db, &mut env(), &[]);
    assert_eq!(result.exit_reason, Return::Continue);
    assert_eq!(balance(&state, address), 1);
}

#[test]
fn a_new_account_that_cannot_be_loaded_fails_the_create() {
    let mut db = db();
    db.broken.push(create_address(CALLER, 0));
    let (result, _) = create::<LondonSpec>(&mut db, &mut env(), &[]);
    assert_eq!(result.exit_reason, Return::FatalExternalError);
    assert!(matches!(result.out, TransactOut::Create(_, Some(_))));
}

#[test]
fn an_inner_create_raises_the_nonce_also_where_it_fails() {
    let mut db = code(db(), &[CREATE, 0, 2, REVERT, 0, RETURN_REPLY]);
    let (result, state) = transact::<LondonSpec>(&mut db, &mut env());
    assert!(text(&result).starts_with("Create { ret: Revert"));
    assert_eq!(state.get(&TARGET).unwrap().info.nonce, 2);
    assert!(state.get(&create_address(TARGET, 1)).is_none());
}

#[test]
fn an_inner_create_without_the_funds_is_refused() {
    let mut db = code(db(), &[CREATE, 5, 0, RETURN_REPLY]);
    let (result, state) = transact::<LondonSpec>(&mut db, &mut env());
    assert!(text(&result).starts_with("Create { ret: OutOfFund, address: None"));
    assert_eq!(state.get(&TARGET).unwrap().info.nonce, 1);
}

#[test]
fn create2_depends_on_the_init_code_and_the_salt() {
    let mut db = code(db(), &[CREATE2, 9, 0, 1, 0, RETURN_REPLY]);
    let (result, state) = transact::<LondonSpec>(&mut db, &mut env());
    let address = evm_impl::address::create2_address(
        TARGET,
        Bytecode::new_raw(vec![0]).hash,
        word(9),
    );
    assert!(text(&result).starts_with("Create { ret: OpcodeNotFound"));
    assert!(text(&result).contains(&format!("address: Some({:?})", address)));
    assert!(state.get(&address).is_none());
}

#[test]
fn an_account_is_destroyed() {
    let mut db = db().with(TARGET, 10, 1, &[DESTROY, 0x61, RETURN_REPLY]);
    let (result, state) = transact::<LondonSpec>(&mut db, &mut env());
    assert_eq!(
        text(&result),
        "SelfDestruct { destroyed: Some(SelfDestructResult { had_value: true, exists: false, \
         is_cold: true, previously_destroyed: false }) }"
    );
    assert!(state.get(&TARGET).unwrap().is_destroyed);
    assert_eq!(balance(&state, TARGET), 0);
    assert_eq!(balance(&state, OTHER), 10);
}

#[test]
fn steps_go_on_where_nobody_watches() {
    let (result, _) = run::<LondonSpec>(&[STEP, RETURN_REPLY]);
    assert_eq!(text(&result), "Step { ret: Continue }");
    let (result, _) = run::<LondonSpec>(&[STEP_END, RETURN_REPLY]);
    assert_eq!(text(&result), "Step { ret: Continue }");
}

#[test]
fn balances_are_answered() {
    let (result, _) = run::<LondonSpec>(&[BALANCE, 0x61, RETURN_REPLY]);
    assert_eq!(text(&result), "Balance { balance: Some((U256 { limbs: [0, 0, 0, 0] }, true)) }");
}

fn call_precompile(n: u8, data: &[u8], gas_limit: u64) -> (ExecutionResult, State) {
    let mut env = env();
    env.tx.transact_to = TransactTo::Call(at(n));
    env.tx.data = data.to_vec();
    env.tx.gas_limit = gas_limit;
    env.tx.value = word(5);
    transact::<LondonSpec>(&mut db(), &mut env)
}

#[test]
fn the_identity_precompile() {
    let (result, state) = call_precompile(4, &[1, 2, 3], 100_000);
    assert_eq!(result.exit_reason, Return::Continue);
    assert_eq!(output(&result), vec![1, 2, 3]);
    assert_eq!(result.gas_used, 21000 + 3 * 16 + 18);
    assert_eq!(balance(&state, at(4)), 5);
}

#[test]
fn the_sha256_precompile() {
    let (result, _) = call_precompile(2, b"abc", 100_000);
    assert_eq!(output(&result)[..4], [0xba, 0x78, 0x16, 0xbf]);
    assert_eq!(output(&result).len(), 32);
    assert_eq!(result.gas_used, 21000 + 3 * 16 + 72);
}

#[test]
fn a_precompile_that_is_not_paid_for_does_nothing() {
    let (result, state) = call_precompile(4, &[1, 2, 3], 21000 + 3 * 16 + 17);
    assert_eq!(result.exit_reason, Return::OutOfGas);
    assert!(output(&result).is_empty());
    assert_eq!(result.gas_used, 21000 + 3 * 16 + 17);
    assert!(state.get(&at(4)).is_none());
}

#[test]
fn a_precompile_that_fails_does_nothing() {
    let (result, state) = call_precompile(9, &[1, 2, 3], 100_000);
    assert_eq!(result.exit_reason, Return::PrecompileError);
    assert_eq!(result.gas_used, 100_000);
    assert!(state.get(&at(9)).is_none());
}

#[test]
fn an_address_that_is_no_precompile_is_an_account() {
    let (result, _) = call_precompile(10, &[1, 2, 3], 100_000);
    assert_eq!(result.exit_reason, Return::Stop);
    assert!(output(&result).is_empty());
}

#[test]
fn what_the_database_knows_of_a_precompile_is_added() {
    let mut env = env();
    env.tx.transact_to = TransactTo::Call(at(4));
    env.tx.value = word(5);
    let mut db = db().with(at(4), 10, 0, &[]);
    let (_, state) = transact::<LondonSpec>(&mut db, &mut env);
    assert_eq!(balance(&state, at(4)), 15);
    env.cfg.perf_all_precompiles_have_balance = true;
    let (_, state) = transact::<LondonSpec>(&mut db, &mut env);
    assert_eq!(balance(&state, at(4)), 25);
}

#[test]
fn a_call_without_value_touches_the_account() {
    let (_, state) = run::<LondonSpec>(&[]);
    assert!(state.get(&TARGET).unwrap().is_touched);
}

#[test]
fn a_machine_spends_no_more_than_it_was_given() {
    let mut env = env();
    env.tx.gas_limit = 21100;
    let mut db = code(db(), &[SPEND, 2]);
    let (result, _) = transact::<LondonSpec>(&mut db, &mut env);
    assert_eq!(result.exit_reason, Return::Stop);
    assert_eq!(result.gas_used, 21100);
}

#[test]
fn the_order_of_data_does_not_change_its_cost() {
    let used = |data: Vec<u8>| {
        let mut env = env();
        env.tx.data = data;
        transact::<LondonSpec>(&mut db(), &mut env).0.gas_used
    };
    assert_eq!(used(vec![0, 1, 2]), 21036);
    assert_eq!(used(vec![2, 0, 1]), 21036);
    assert_eq!(used(vec![3, 1, 2]), 21048);
}

#[test]
fn the_order_of_an_access_list_does_not_change_its_cost() {
    let used = |access_list: Vec<(H160, Vec<U256>)>| {
        let mut env = env();
        env.tx.access_list = access_list;
        transact::<LondonSpec>(&mut db(), &mut env).0.gas_used
    };
    let (one, two) = ((OTHER, vec![word(1)]), (TARGET, vec![word(1), word(2)]));
    assert_eq!(used(vec![one.clone(), two.clone()]), 21000 + 2 * 2400 + 3 * 1900);
    assert_eq!(used(vec![two, one]), 21000 + 2 * 2400 + 3 * 1900);
}

#[test]
fn what_was_paid_for_gas_is_split_without_loss() {
    let mut env = env();
    env.block.basefee = word(3);
    env.tx.gas_price = word(10);
    env.tx.gas_priority_fee = Some(word(2));
    let (result, state) = transact::<LondonSpec>(&mut db(), &mut env);
    let back = balance(&state, CALLER) - (1_000_000 - 5 * 100_000);
    assert_eq!(back + balance(&state, COINBASE) + 3 * result.gas_used, 5 * 100_000);
    env.block.coinbase = CALLER;
    let (result, state) = transact::<LondonSpec>(&mut db(), &mut env);
    assert_eq!(balance(&state, CALLER), 1_000_000 - 3 * result.gas_used);
}

#[test]
fn a_failed_inner_create_leaves_the_rest_alone() {
    let init = [SSTORE, 1, 9, LOG, 1, 2, CALL, 0x61, 4, REVERT, 0];
    let mut bytes = vec![SSTORE, 1, 7, LOG, 5, 6, CREATE, 5, init.len() as u8];
    bytes.extend(init);
    bytes.push(RETURN_REPLY);
    let mut db = db().with(TARGET, 10, 1, &bytes).with(OTHER, 3, 8, &[]);
    let (result, state) = transact::<LondonSpec>(&mut db, &mut env());
    assert!(text(&result).starts_with("Create { ret: Revert"));
    let target = state.get(&TARGET).unwrap();
    assert_eq!((target.info.nonce, target.info.balance.limbs[0]), (2, 10));
    assert_eq!(slot(&state, TARGET, 1), 7);
    assert_eq!(result.logs.len(), 1);
    assert_eq!(addresses(&state), vec![CALLER, COINBASE, TARGET]);
}

#[test]
fn calls_one_after_the_other_are_not_nested() {
    let mut bytes = vec![];
    for _ in 0..1100 {
        bytes.extend([CALL, 0x61, 0]);
    }
    bytes.push(RETURN_REPLY);
    let (result, _) = run::<LondonSpec>(&bytes);
    assert!(text(&result).starts_with("Call { ret: Stop"));
}

#[test]
fn what_could_be_loaded_of_an_access_list_is_warm() {
    let mut env = env();
    env.tx.access_list = vec![(at(0x70), vec![word(1)]), (OTHER, vec![]), (TARGET, vec![word(3)])];
    let mut db = code(db(), &[ACCOUNT, 0x61, RETURN_REPLY]);
    db.broken.push(at(0x70));
    let (result, _) = transact::<BerlinSpec>(&mut db, &mut env);
    assert_eq!(text(&result), "LoadAccount { account: Some((false, true)) }");
    let mut db = code(db, &[SLOAD, 3, RETURN_REPLY]);
    let (result, _) = transact::<BerlinSpec>(&mut db, &mut env);
    assert!(text(&result).ends_with("false)) }"));
}
