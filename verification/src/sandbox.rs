//! Sandbox bridge: loads a contract module into an isolated execution
//! environment and invokes its exported entry points, marshaling byte
//! buffers across the host/guest trust boundary.
//!
//! The guest format is a small deterministic check language. A module
//! declares two entry points: a validation program and an update program,
//! each a list of byte checks. A check names one of the marshaled buffers
//! (parameters, state, delta), an offset and an expected byte. The guest is
//! handed only (pointer, length) pairs describing regions of the sandbox's
//! linear memory; every guest read is bounds-checked against the granted
//! region, and a read outside it traps the sandbox instead of touching
//! host memory. Each invocation runs under a memory ceiling and a step
//! budget; exceeding either traps. The guest sees no clock, randomness or
//! ambient I/O, so results are reproducible from the inputs alone.
//!
//! Validation semantics: the checks run in order; an out-of-bounds offset
//! traps, a mismatched byte reports "invalid", and a program whose checks
//! all pass reports "valid". Update semantics: the update program is a
//! guard run the same way over (parameters, state, delta); when it passes,
//! the guest returns the delta region as the new state bytes (updates are
//! total replacements), a mismatch rejects the delta, and an out-of-bounds
//! offset traps.

use vstd::prelude::*;
use crate::ContractError;

verus! {

/// Magic bytes and version that open every well-formed module.
pub const MODULE_MAGIC_0: u8 = 0x43;

pub const MODULE_MAGIC_1: u8 = 0x4D;

pub const MODULE_VERSION: u8 = 1;

/// One guest check: byte `off` of the buffer named by `tag` (0 parameters,
/// 1 state, 2 delta) must equal `expected`.
#[derive(Clone, Copy, Debug, PartialEq, Eq, Structural)]
pub struct Check {
    pub tag: u8,
    pub off: usize,
    pub expected: u8,
}

/// Result of one guest invocation.
#[derive(Clone, Copy, Debug, PartialEq, Eq, Structural)]
pub enum GuestOutcome {
    /// All checks passed.
    Valid,
    /// A check read a byte that differed from the expected one.
    Invalid,
    /// The guest read out of bounds or exceeded a resource budget.
    Trap,
}

/// Per-invocation resource ceiling: total marshaled bytes and interpreter
/// steps a single call may use.
#[derive(Clone, Copy, Debug, PartialEq, Eq, Structural)]
pub struct ExecLimits {
    pub max_memory: usize,
    pub step_budget: usize,
}

/// Lifecycle of a sandbox instance. A completed or trapped instance is
/// never reused; each call gets a fresh instantiation.
#[derive(Clone, Copy, Debug, PartialEq, Eq, Structural)]
pub enum Phase {
    Instantiated,
    Completed,
    Trapped,
}

/// Number of validation checks a module's header declares.
pub open spec fn spec_nv(code: Seq<u8>) -> int {
    code[3] as int
}

/// Number of update checks a module's header declares.
pub open spec fn spec_nu(code: Seq<u8>) -> int {
    code[4] as int
}

/// The `i`-th check record of the module (validation checks first).
pub open spec fn spec_check_at(code: Seq<u8>, i: int) -> Check {
    Check {
        tag: code[5 + 4 * i],
        off: ((code[5 + 4 * i + 1] as int) + 256 * (code[5 + 4 * i + 2] as int)) as usize,
        expected: code[5 + 4 * i + 3],
    }
}

/// Module well-formedness: magic, version, exact length, and each check
/// naming a buffer its entry point is granted (validation sees parameters
/// and state; update also sees the delta).
pub open spec fn spec_module_ok(code: Seq<u8>) -> bool {
    &&& code.len() >= 5
    &&& code.len() == 5 + 4 * (spec_nv(code) + spec_nu(code))
    &&& code[0] == MODULE_MAGIC_0
    &&& code[1] == MODULE_MAGIC_1
    &&& code[2] == MODULE_VERSION
    &&& forall|i: int| 0 <= i < spec_nv(code) ==> (#[trigger] spec_check_at(code, i)).tag <= 1
    &&& forall|i: int|
        spec_nv(code) <= i < spec_nv(code) + spec_nu(code) ==> (#[trigger] spec_check_at(
            code,
            i,
        )).tag <= 2
}

/// The validation program of a well-formed module.
pub open spec fn spec_vchecks(code: Seq<u8>) -> Seq<Check> {
    Seq::new(spec_nv(code) as nat, |i: int| spec_check_at(code, i))
}

/// The update program of a well-formed module.
pub open spec fn spec_uchecks(code: Seq<u8>) -> Seq<Check> {
    Seq::new(spec_nu(code) as nat, |i: int| spec_check_at(code, spec_nv(code) + i))
}

/// The buffer a check reads from.
pub open spec fn buf_for(c: Check, p: Seq<u8>, s: Seq<u8>, d: Seq<u8>) -> Seq<u8> {
    if c.tag == 0 {
        p
    } else if c.tag == 1 {
        s
    } else {
        d
    }
}

/// Guest semantics of a check list, run in order: an out-of-bounds offset
/// traps, a mismatch reports invalid, and an exhausted list is valid.
pub open spec fn run_checks(cs: Seq<Check>, p: Seq<u8>, s: Seq<u8>, d: Seq<u8>) -> GuestOutcome
    decreases cs.len(),
{
    if cs.len() == 0 {
        GuestOutcome::Valid
    } else {
        let c = cs[0];
        let b = buf_for(c, p, s, d);
        if c.off >= b.len() {
            GuestOutcome::Trap
        } else if b[c.off as int] != c.expected {
            GuestOutcome::Invalid
        } else {
            run_checks(cs.drop_first(), p, s, d)
        }
    }
}

/// Outcome of one validation call under the given resource limits.
pub open spec fn run_validate(cs: Seq<Check>, p: Seq<u8>, s: Seq<u8>, lim: ExecLimits) -> GuestOutcome {
    if p.len() + s.len() > lim.max_memory as int {
        GuestOutcome::Trap
    } else if cs.len() as int > lim.step_budget as int {
        GuestOutcome::Trap
    } else {
        run_checks(cs, p, s, Seq::empty())
    }
}

/// Outcome of one update call under the given resource limits.
pub open spec fn run_update(
    cs: Seq<Check>,
    p: Seq<u8>,
    s: Seq<u8>,
    d: Seq<u8>,
    lim: ExecLimits,
) -> GuestOutcome {
    if p.len() + s.len() + d.len() > lim.max_memory as int {
        GuestOutcome::Trap
    } else if cs.len() as int > lim.step_budget as int {
        GuestOutcome::Trap
    } else {
        run_checks(cs, p, s, d)
    }
}

/// Outcome of validating (parameters, state) under a module's code bytes.
pub open spec fn spec_validate(code: Seq<u8>, p: Seq<u8>, s: Seq<u8>, lim: ExecLimits) -> GuestOutcome {
    run_validate(spec_vchecks(code), p, s, lim)
}

/// Outcome of updating state by a delta under a module's code bytes.
pub open spec fn spec_update(
    code: Seq<u8>,
    p: Seq<u8>,
    s: Seq<u8>,
    d: Seq<u8>,
    lim: ExecLimits,
) -> GuestOutcome {
    run_update(spec_uchecks(code), p, s, d, lim)
}

/// A parsed module: the two exported check programs.
struct Module {
    vchecks: Vec<Check>,
    uchecks: Vec<Check>,
}

/// A contract module loaded into an isolated execution environment.
pub struct SandboxInstance {
    module: Module,
    limits: ExecLimits,
    phase: Phase,
}

/// Appends `src` to the sandbox's linear memory (copy-in marshaling).
fn copy_into(dst: &mut Vec<u8>, src: &Vec<u8>)
    ensures
        final(dst)@ == old(dst)@ + src@,
{
    let mut i: usize = 0;
    while i < src.len()
        invariant
            i <= src.len(),
            dst@ =~= old(dst)@ + src@.take(i as int),
        decreases src.len() - i,
    {
        dst.push(src[i]);
        i += 1;
    }
    proof {
        assert(dst@ =~= old(dst)@ + src@);
    }
}

/// Copies a region of the sandbox's linear memory back out (copy-out
/// marshaling of the guest's returned (pointer, length) pair).
fn copy_region(mem: &Vec<u8>, base: usize, len: usize) -> (r: Vec<u8>)
    requires
        base + len <= mem@.len(),
    ensures
        r@ == mem@.subrange(base as int, base as int + len as int),
{
    let total: usize = mem.len();
    let mut r: Vec<u8> = Vec::new();
    let mut i: usize = 0;
    while i < len
        invariant
            i <= len,
            base + len <= total,
            total == mem@.len(),
            r@ =~= mem@.subrange(base as int, base as int + i as int),
        decreases len - i,
    {
        r.push(mem[base + i]);
        i += 1;
    }
    r
}

/// Runs a check program over the marshaled regions of linear memory.
/// The program is handed only (base, length) pairs; each read is
/// bounds-checked against the granted region before touching memory.
fn run_check_list(
    mem: &Vec<u8>,
    checks: &Vec<Check>,
    p_len: usize,
    s_len: usize,
    d_len: usize,
    p: Ghost<Seq<u8>>,
    s: Ghost<Seq<u8>>,
    d: Ghost<Seq<u8>>,
) -> (r: GuestOutcome)
    requires
        p@.len() == p_len,
        s@.len() == s_len,
        d@.len() == d_len,
        mem@ == p@ + s@ + d@,
    ensures
        r == run_checks(checks@, p@, s@, d@),
{
    let total: usize = mem.len();
    proof {
        assert(total == p_len + s_len + d_len);
        assert(checks@.skip(0) =~= checks@);
    }
    let mut i: usize = 0;
    while i < checks.len()
        invariant
            i <= checks@.len(),
            p@.len() == p_len,
            s@.len() == s_len,
            d@.len() == d_len,
            mem@ == p@ + s@ + d@,
            total == p_len + s_len + d_len,
            run_checks(checks@, p@, s@, d@) == run_checks(checks@.skip(i as int), p@, s@, d@),
        decreases checks@.len() - i,
    {
        let c = checks[i];
        proof {
            assert(checks@.skip(i as int)[0] == checks@[i as int]);
            assert(checks@.skip(i as int).drop_first() =~= checks@.skip(i as int + 1));
        }
        let base: usize;
        let blen: usize;
        if c.tag == 0 {
            base = 0;
            blen = p_len;
        } else if c.tag == 1 {
            base = p_len;
            blen = s_len;
        } else {
            base = p_len + s_len;
            blen = d_len;
        }
        proof {
            assert(buf_for(c, p@, s@, d@).len() == blen);
        }
        if c.off >= blen {
            return GuestOutcome::Trap;
        }
        let byte = mem[base + c.off];
        proof {
            let b = buf_for(c, p@, s@, d@);
            assert(mem@[base + c.off] == b[c.off as int]);
        }
        if byte != c.expected {
            return GuestOutcome::Invalid;
        }
        i += 1;
    }
    proof {
        assert(checks@.skip(checks@.len() as int) =~= Seq::<Check>::empty());
    }
    GuestOutcome::Valid
}

impl SandboxInstance {
    /// The loaded validation program.
    pub closed spec fn vchecks(self) -> Seq<Check> {
        self.module.vchecks@
    }

    /// The loaded update program.
    pub closed spec fn uchecks(self) -> Seq<Check> {
        self.module.uchecks@
    }

    /// The resource ceiling this instance runs under.
    pub closed spec fn limits(self) -> ExecLimits {
        self.limits
    }

    /// Where the instance stands in its lifecycle.
    pub closed spec fn phase(self) -> Phase {
        self.phase
    }

    /// Loads `code` into a fresh isolated instance. Fails with
    /// `InvalidModule` exactly when the bytes are malformed.
    pub fn instantiate(code: &Vec<u8>, limits: ExecLimits) -> (r: Result<
        SandboxInstance,
        ContractError,
    >)
        ensures
            match r {
                Ok(inst) => spec_module_ok(code@) && inst.vchecks() == spec_vchecks(code@)
                    && inst.uchecks() == spec_uchecks(code@) && inst.limits() == limits
                    && inst.phase() == Phase::Instantiated,
                Err(e) => e == ContractError::InvalidModule && !spec_module_ok(code@),
            },
    {
        if code.len() < 5 {
            return Err(ContractError::InvalidModule);
        }
        if code[0] != MODULE_MAGIC_0 || code[1] != MODULE_MAGIC_1 || code[2] != MODULE_VERSION {
            return Err(ContractError::InvalidModule);
        }
        let nv = code[3] as usize;
        let nu = code[4] as usize;
        if code.len() != 5 + 4 * (nv + nu) {
            return Err(ContractError::InvalidModule);
        }
        let mut vchecks: Vec<Check> = Vec::new();
        let mut i: usize = 0;
        while i < nv
            invariant
                i <= nv,
                nv == spec_nv(code@),
                nu == spec_nu(code@),
                code@.len() == 5 + 4 * (nv + nu),
                vchecks@ =~= spec_vchecks(code@).take(i as int),
                forall|j: int| 0 <= j < i ==> (#[trigger] spec_check_at(code@, j)).tag <= 1,
            decreases nv - i,
        {
            let tag = code[5 + 4 * i];
            let off = (code[5 + 4 * i + 1] as usize) + 256 * (code[5 + 4 * i + 2] as usize);
            let expected = code[5 + 4 * i + 3];
            if tag > 1 {
                proof {
                    assert(spec_check_at(code@, i as int).tag == tag);
                }
                return Err(ContractError::InvalidModule);
            }
            let c = Check { tag, off, expected };
            proof {
                assert(c == spec_check_at(code@, i as int));
            }
            vchecks.push(c);
            i += 1;
        }
        let mut uchecks: Vec<Check> = Vec::new();
        let mut k: usize = 0;
        while k < nu
            invariant
                k <= nu,
                nv == spec_nv(code@),
                nu == spec_nu(code@),
                code@.len() == 5 + 4 * (nv + nu),
                uchecks@ =~= spec_uchecks(code@).take(k as int),
                forall|j: int| 0 <= j < nv ==> (#[trigger] spec_check_at(code@, j)).tag <= 1,
                forall|j: int|
                    nv <= j < nv + k ==> (#[trigger] spec_check_at(code@, j)).tag <= 2,
            decreases nu - k,
        {
            let idx = nv + k;
            let tag = code[5 + 4 * idx];
            let off = (code[5 + 4 * idx + 1] as usize) + 256 * (code[5 + 4 * idx + 2] as usize);
            let expected = code[5 + 4 * idx + 3];
            if tag > 2 {
                proof {
                    assert(spec_check_at(code@, idx as int).tag == tag);
                }
                return Err(ContractError::InvalidModule);
            }
            let c = Check { tag, off, expected };
            proof {
                assert(c == spec_check_at(code@, idx as int));
            }
            uchecks.push(c);
            k += 1;
        }
        proof {
            assert(vchecks@ =~= spec_vchecks(code@));
            assert(uchecks@ =~= spec_uchecks(code@));
            assert(spec_module_ok(code@));
        }
        Ok(SandboxInstance { module: Module { vchecks, uchecks }, limits, phase: Phase::Instantiated })
    }

    /// Marshals `parameters` and `state` into the instance's linear memory
    /// and runs the guest's validation entry point. `Ok(true)` means the
    /// guest reported the state valid, `Ok(false)` invalid; a fault or an
    /// exceeded resource budget traps, and the prior host state is never
    /// touched either way.
    pub fn call_validate(&mut self, parameters: &Vec<u8>, state: &Vec<u8>) -> (r: Result<
        bool,
        ContractError,
    >)
        requires
            old(self).phase() == Phase::Instantiated,
        ensures
            final(self).vchecks() == old(self).vchecks(),
            final(self).uchecks() == old(self).uchecks(),
            final(self).limits() == old(self).limits(),
            ({
                let o = run_validate(old(self).vchecks(), parameters@, state@, old(self).limits());
                match r {
                    Ok(v) => (v <==> o == GuestOutcome::Valid) && (!v <==> o
                        == GuestOutcome::Invalid) && final(self).phase() == Phase::Completed,
                    Err(e) => e == ContractError::SandboxTrap && o == GuestOutcome::Trap && final(self).phase() == Phase::Trapped,
                }
            }),
    {
        if state.len() > self.limits.max_memory || parameters.len() > self.limits.max_memory
            - state.len() {
            self.phase = Phase::Trapped;
            return Err(ContractError::SandboxTrap);
        }
        if self.module.vchecks.len() > self.limits.step_budget {
            self.phase = Phase::Trapped;
            return Err(ContractError::SandboxTrap);
        }
        let mut mem: Vec<u8> = Vec::new();
        copy_into(&mut mem, parameters);
        copy_into(&mut mem, state);
        proof {
            assert(mem@ =~= parameters@ + state@ + Seq::<u8>::empty());
        }
        let outcome = run_check_list(
            &mem,
            &self.module.vchecks,
            parameters.len(),
            state.len(),
            0,
            Ghost(parameters@),
            Ghost(state@),
            Ghost(Seq::empty()),
        );
        match outcome {
            GuestOutcome::Valid => {
                self.phase = Phase::Completed;
                Ok(true)
            },
            GuestOutcome::Invalid => {
                self.phase = Phase::Completed;
                Ok(false)
            },
            GuestOutcome::Trap => {
                self.phase = Phase::Trapped;
                Err(ContractError::SandboxTrap)
            },
        }
    }

    /// Marshals `parameters`, `state` and `delta` into linear memory and
    /// runs the guest's update entry point. When the guard passes, the
    /// guest's returned (pointer, length) region — the delta — is copied
    /// back out as the new state bytes. A mismatch rejects the delta; a
    /// fault or an exceeded budget traps.
    pub fn call_update(&mut self, parameters: &Vec<u8>, state: &Vec<u8>, delta: &Vec<u8>) -> (r:
        Result<Vec<u8>, ContractError>)
        requires
            old(self).phase() == Phase::Instantiated,
        ensures
            final(self).vchecks() == old(self).vchecks(),
            final(self).uchecks() == old(self).uchecks(),
            final(self).limits() == old(self).limits(),
            ({
                let o = run_update(
                    old(self).uchecks(),
                    parameters@,
                    state@,
                    delta@,
                    old(self).limits(),
                );
                match r {
                    Ok(new_state) => o == GuestOutcome::Valid && new_state@ == delta@ && final(self).phase() == Phase::Completed,
                    Err(e) => (e == ContractError::UpdateRejected && o == GuestOutcome::Invalid
                        && final(self).phase() == Phase::Completed) || (e
                        == ContractError::SandboxTrap && o == GuestOutcome::Trap && final(self).phase() == Phase::Trapped),
                }
            }),
    {
        if delta.len() > self.limits.max_memory || state.len() > self.limits.max_memory
            - delta.len() || parameters.len() > self.limits.max_memory - delta.len()
            - state.len() {
            self.phase = Phase::Trapped;
            return Err(ContractError::SandboxTrap);
        }
        if self.module.uchecks.len() > self.limits.step_budget {
            self.phase = Phase::Trapped;
            return Err(ContractError::SandboxTrap);
        }
        let mut mem: Vec<u8> = Vec::new();
        copy_into(&mut mem, parameters);
        copy_into(&mut mem, state);
        copy_into(&mut mem, delta);
        proof {
            assert(mem@ =~= parameters@ + state@ + delta@);
        }
        let outcome = run_check_list(
            &mem,
            &self.module.uchecks,
            parameters.len(),
            state.len(),
            delta.len(),
            Ghost(parameters@),
            Ghost(state@),
            Ghost(delta@),
        );
        match outcome {
            GuestOutcome::Valid => {
                let new_state = copy_region(&mem, parameters.len() + state.len(), delta.len());
                proof {
                    assert(new_state@ =~= delta@);
                }
                self.phase = Phase::Completed;
                Ok(new_state)
            },
            GuestOutcome::Invalid => {
                self.phase = Phase::Completed;
                Err(ContractError::UpdateRejected)
            },
            GuestOutcome::Trap => {
                self.phase = Phase::Trapped;
                Err(ContractError::SandboxTrap)
            },
        }
    }
}

} // verus!
