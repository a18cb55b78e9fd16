use contract_exec::executor::ContractExecutor;
use contract_exec::hashing::ContractId;
use contract_exec::sandbox::{ExecLimits, SandboxInstance};
use contract_exec::ContractError;

/// Builds a module: magic, version, then the validation and update check
/// programs. Each check is (buffer tag, offset, expected byte).
fn module(vchecks: &[(u8, u16, u8)], uchecks: &[(u8, u16, u8)]) -> Vec<u8> {
    let mut code = vec![0x43u8, 0x4D, 1, vchecks.len() as u8, uchecks.len() as u8];
    for &(tag, off, expected) in vchecks.iter().chain(uchecks.iter()) {
        code.push(tag);
        code.push((off & 0xFF) as u8);
        code.push((off >> 8) as u8);
        code.push(expected);
    }
    code
}

fn limits() -> ExecLimits {
    ExecLimits { max_memory: 1 << 20, step_budget: 1024 }
}

fn executor() -> ContractExecutor {
    ContractExecutor::new(1 << 20, 1 << 16, limits())
}

/// The boundary example: valid iff byte 0 equals 1 and byte 3 equals 4.
fn byte0_byte3_module() -> Vec<u8> {
    module(&[(1, 0, 1), (1, 3, 4)], &[])
}

#[test]
fn put_commits_valid_state() {
    let mut ex = executor();
    let code = byte0_byte3_module();
    let state = vec![1u8, 0, 0, 4];
    let id = ex.put(&code, &vec![], &state, false).unwrap();
    assert_eq!(ex.get(&id).unwrap(), state);
}

#[test]
fn put_rejects_invalid_state() {
    let mut ex = executor();
    let code = byte0_byte3_module();
    let r = ex.put(&code, &vec![], &vec![1u8, 0, 0, 0], false);
    assert_eq!(r.unwrap_err(), ContractError::ValidationFailed);
    let id = ContractId::from_code(&code);
    assert_eq!(ex.get(&id).unwrap_err(), ContractError::NotFound);
}

#[test]
fn put_short_state_traps_safely() {
    let mut ex = executor();
    let code = byte0_byte3_module();
    let r = ex.put(&code, &vec![], &vec![1u8, 0], false);
    assert_eq!(r.unwrap_err(), ContractError::SandboxTrap);
    let id = ContractId::from_code(&code);
    assert_eq!(ex.get(&id).unwrap_err(), ContractError::NotFound);
}

#[test]
fn boundary_abi_example() {
    let code = byte0_byte3_module();
    let mut inst = SandboxInstance::instantiate(&code, limits()).unwrap();
    assert_eq!(inst.call_validate(&vec![], &vec![1u8, 0, 0, 4]).unwrap(), true);
    let mut inst = SandboxInstance::instantiate(&code, limits()).unwrap();
    assert_eq!(inst.call_validate(&vec![], &vec![1u8, 0, 0, 0]).unwrap(), false);
    let mut inst = SandboxInstance::instantiate(&code, limits()).unwrap();
    let r = inst.call_validate(&vec![], &vec![1u8, 0, 0]);
    assert_eq!(r.unwrap_err(), ContractError::SandboxTrap);
}

#[test]
fn invalid_module_is_refused() {
    let mut ex = executor();
    for bad in [
        vec![],
        vec![0u8, 1, 2],
        vec![0x43u8, 0x4D, 9, 0, 0],
        vec![0x43u8, 0x4D, 1, 1, 0],
        module(&[(3, 0, 1)], &[]),
        module(&[], &[(3, 0, 1)]),
    ] {
        let r = ex.put(&bad, &vec![], &vec![], false);
        assert_eq!(r.unwrap_err(), ContractError::InvalidModule);
    }
}

#[test]
fn oversized_code_is_refused() {
    let mut ex = ContractExecutor::new(8, 1 << 16, limits());
    let code = byte0_byte3_module();
    assert!(code.len() > 8);
    let r = ex.put(&code, &vec![], &vec![1u8, 0, 0, 4], false);
    assert_eq!(r.unwrap_err(), ContractError::CapacityExceeded);
}

#[test]
fn step_budget_exhaustion_traps() {
    let mut ex = ContractExecutor::new(
        1 << 20,
        1 << 16,
        ExecLimits { max_memory: 1 << 20, step_budget: 1 },
    );
    let code = byte0_byte3_module();
    let r = ex.put(&code, &vec![], &vec![1u8, 0, 0, 4], false);
    assert_eq!(r.unwrap_err(), ContractError::SandboxTrap);
}

#[test]
fn memory_ceiling_traps() {
    let mut ex = ContractExecutor::new(
        1 << 20,
        1 << 16,
        ExecLimits { max_memory: 3, step_budget: 1024 },
    );
    let code = byte0_byte3_module();
    let r = ex.put(&code, &vec![], &vec![1u8, 0, 0, 4], false);
    assert_eq!(r.unwrap_err(), ContractError::SandboxTrap);
}

#[test]
fn update_applies_delta_as_new_state() {
    let mut ex = executor();
    // update guard: prior state's byte 0 must equal 7
    let code = module(&[(1, 0, 7)], &[(1, 0, 7)]);
    let id = ex.put(&code, &vec![], &vec![7u8], false).unwrap();
    let new_state = ex.update(&id, &vec![9u8, 1], false).unwrap();
    assert_eq!(new_state, vec![9u8, 1]);
    assert_eq!(ex.get(&id).unwrap(), vec![9u8, 1]);
}

#[test]
fn second_update_observes_first_commit() {
    let mut ex = executor();
    // the guard reads the prior state, so a successful update flips it off
    let code = module(&[(1, 0, 7)], &[(1, 0, 7)]);
    let id = ex.put(&code, &vec![], &vec![7u8], false).unwrap();
    assert_eq!(ex.update(&id, &vec![9u8], false).unwrap(), vec![9u8]);
    // the second update's observed prior state is the first's result, not
    // the state both started from
    let r = ex.update(&id, &vec![8u8], false);
    assert_eq!(r.unwrap_err(), ContractError::UpdateRejected);
    assert_eq!(ex.get(&id).unwrap(), vec![9u8]);
}

#[test]
fn rejected_update_preserves_prior_state() {
    let mut ex = executor();
    // update guard: the delta's byte 0 must equal 1
    let code = module(&[(1, 0, 7)], &[(2, 0, 1)]);
    let id = ex.put(&code, &vec![], &vec![7u8], false).unwrap();
    let r = ex.update(&id, &vec![0u8, 9], false);
    assert_eq!(r.unwrap_err(), ContractError::UpdateRejected);
    assert_eq!(ex.get(&id).unwrap(), vec![7u8]);
    assert_eq!(ex.update(&id, &vec![1u8, 9], false).unwrap(), vec![1u8, 9]);
}

#[test]
fn trapped_update_preserves_prior_state() {
    let mut ex = executor();
    // update guard reads delta byte 2, so a short delta traps
    let code = module(&[(1, 0, 7)], &[(2, 2, 1)]);
    let id = ex.put(&code, &vec![], &vec![7u8], false).unwrap();
    let r = ex.update(&id, &vec![1u8], false);
    assert_eq!(r.unwrap_err(), ContractError::SandboxTrap);
    assert_eq!(ex.get(&id).unwrap(), vec![7u8]);
}

#[test]
fn update_unknown_contract_not_found() {
    let mut ex = executor();
    let id = ContractId::from_bytes(vec![0u8; 32]);
    let r = ex.update(&id, &vec![1u8], false);
    assert_eq!(r.unwrap_err(), ContractError::NotFound);
    assert_eq!(ex.get(&id).unwrap_err(), ContractError::NotFound);
}

#[test]
fn parameters_reach_the_guest() {
    let mut ex = executor();
    // validity and the update guard both depend on a parameters byte
    let code = module(&[(0, 0, 5)], &[(0, 1, 6)]);
    let r = ex.put(&code, &vec![9u8, 6], &vec![], false);
    assert_eq!(r.unwrap_err(), ContractError::ValidationFailed);
    let id = ex.put(&code, &vec![5u8, 6], &vec![], false).unwrap();
    assert_eq!(ex.update(&id, &vec![2u8], false).unwrap(), vec![2u8]);
}

#[test]
fn contract_id_is_a_32_byte_digest() {
    let code = byte0_byte3_module();
    let id = ContractId::from_code(&code);
    assert_eq!(id.as_bytes().len(), 32);
    assert_ne!(id.as_bytes().as_slice(), code.as_slice());
    let again = ContractId::from_code(&code);
    assert_eq!(id.as_bytes(), again.as_bytes());
    assert_eq!(id.duplicate().as_bytes(), id.as_bytes());
}
