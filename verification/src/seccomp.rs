//! seccomp-bpf filter construction for strict sandbox mode.
//!
//! In strict mode the filter refuses (with `EPERM`) dangerous system calls
//! such as `ptrace`, `mount` or `kexec_load`; when the network is not allowed,
//! the socket system calls are refused too. Everything else is allowed.
//!
//! `rseq` (334 on x86_64, 293 on aarch64) is intentionally never refused:
//! glibc 2.35 and later call it at startup, and refusing it aborts every
//! dynamically linked program.
use vstd::prelude::*;

use crate::sandbox::{EnforcementLevel, SandboxPolicy};

verus! {

/// The processor architectures whose system call numbers are known here.
#[derive(Debug, Clone, Copy, PartialEq, Eq, Structural)]
pub enum Arch {
    X86_64,
    Aarch64,
}

/// Dangerous system calls refused in strict mode: `ptrace`, `mount`,
/// `umount2`, `reboot`, `init_module`, `delete_module`, `kexec_load`,
/// `open_by_handle_at`, `process_vm_readv`, `process_vm_writev`,
/// `finit_module`, `kexec_file_load`.
pub open spec fn blocked_syscalls_spec(arch: Arch) -> Seq<u32> {
    match arch {
        Arch::X86_64 => seq![101u32, 165, 166, 169, 175, 176, 246, 304, 310, 311, 313, 320],
        Arch::Aarch64 => seq![117u32, 21, 39, 142, 105, 106, 104, 265, 270, 271, 273, 294],
    }
}

/// Network system calls refused when the network is not allowed: `socket`,
/// `connect`, `accept`, `sendto`, `recvfrom`, `sendmsg`, `recvmsg`, `bind`,
/// `listen`, `accept4`.
pub open spec fn network_syscalls_spec(arch: Arch) -> Seq<u32> {
    match arch {
        Arch::X86_64 => seq![41u32, 42, 43, 44, 45, 46, 47, 49, 50, 288],
        Arch::Aarch64 => seq![198u32, 203, 202, 206, 207, 211, 212, 200, 201, 242],
    }
}

/// The dangerous system calls refused in strict mode on `arch`.
pub fn blocked_syscalls(arch: Arch) -> (v: Vec<u32>)
    ensures
        v@ == blocked_syscalls_spec(arch),
{
    let v = match arch {
        Arch::X86_64 => vec![101u32, 165, 166, 169, 175, 176, 246, 304, 310, 311, 313, 320],
        Arch::Aarch64 => vec![117u32, 21, 39, 142, 105, 106, 104, 265, 270, 271, 273, 294],
    };
    assert(v@ =~= blocked_syscalls_spec(arch));
    v
}

/// The network system calls refused without network access on `arch`.
pub fn network_syscalls(arch: Arch) -> (v: Vec<u32>)
    ensures
        v@ == network_syscalls_spec(arch),
{
    let v = match arch {
        Arch::X86_64 => vec![41u32, 42, 43, 44, 45, 46, 47, 49, 50, 288],
        Arch::Aarch64 => vec![198u32, 203, 202, 206, 207, 211, 212, 200, 201, 242],
    };
    assert(v@ =~= network_syscalls_spec(arch));
    v
}

/// BPF instruction structure for seccomp filters.
#[derive(Debug, Clone, Copy, PartialEq, Eq, Structural)]
pub struct SockFilter {
    pub code: u16,
    pub jt: u8,
    pub jf: u8,
    pub k: u32,
}

// BPF instruction constants.
pub const BPF_LD: u16 = 0x00;
pub const BPF_W: u16 = 0x00;
pub const BPF_ABS: u16 = 0x20;
pub const BPF_JMP: u16 = 0x05;
pub const BPF_JEQ: u16 = 0x10;
pub const BPF_K: u16 = 0x00;
pub const BPF_RET: u16 = 0x06;

/// The instruction code that loads a word at an absolute offset.
pub const BPF_LOAD_WORD: u16 = 0x20;
/// The instruction code that jumps on equality with a constant.
pub const BPF_JUMP_IF_EQUAL: u16 = 0x15;
/// The instruction code that returns a constant.
pub const BPF_RETURN: u16 = 0x06;

// seccomp return values.
pub const SECCOMP_RET_ALLOW: u32 = 0x7fff_0000;
pub const SECCOMP_RET_ERRNO: u32 = 0x0005_0000;
pub const SECCOMP_RET_LOG: u32 = 0x7ffc_0000;

/// Offset of the syscall number in the seccomp_data structure (x86_64/aarch64).
pub const SECCOMP_DATA_NR_OFFSET: u32 = 0;

/// The `EPERM` error number of the C library.
#[verifier::external_body]
pub(crate) fn eperm() -> (r: i32)
    ensures
        r == 1,
{
    libc::EPERM
}

/// The return value of a refused system call: logged in permissive mode,
/// `EPERM` otherwise.
pub open spec fn deny_action(enforcement: EnforcementLevel) -> u32 {
    if enforcement == EnforcementLevel::Permissive {
        SECCOMP_RET_LOG
    } else {
        0x0005_0001
    }
}

/// What a seccomp BPF program returns for system call `nr`, run from
/// instruction `pc` with accumulator `acc`. Only the instructions that the
/// filters here use are interpreted; any other instruction, or running off the
/// end, yields `None`.
pub open spec fn bpf_exec(prog: Seq<SockFilter>, pc: int, acc: u32, nr: u32) -> Option<u32>
    decreases prog.len() - pc,
{
    if pc < 0 || pc >= prog.len() {
        None
    } else {
        let ins = prog[pc];
        if ins.code == BPF_LOAD_WORD && ins.k == SECCOMP_DATA_NR_OFFSET {
            bpf_exec(prog, pc + 1, nr, nr)
        } else if ins.code == BPF_JUMP_IF_EQUAL {
            let next: int = pc + 1 + if acc == ins.k { ins.jt as int } else { ins.jf as int };
            if next < prog.len() {
                bpf_exec(prog, next, acc, nr)
            } else {
                None
            }
        } else if ins.code == BPF_RETURN {
            Some(ins.k)
        } else {
            None
        }
    }
}

/// What a seccomp BPF program returns for system call `nr`.
pub open spec fn bpf_run(prog: Seq<SockFilter>, nr: u32) -> Option<u32> {
    bpf_exec(prog, 0, 0, nr)
}

/// The instructions of the filter that refuses exactly `blocked`.
pub open spec fn bpf_filter_spec(blocked: Seq<u32>, enforcement: EnforcementLevel) -> Seq<SockFilter> {
    let n = blocked.len();
    seq![SockFilter { code: BPF_LOAD_WORD, jt: 0, jf: 0, k: SECCOMP_DATA_NR_OFFSET }]
        + Seq::new(n, |i: int| SockFilter { code: BPF_JUMP_IF_EQUAL, jt: ((n - i) % 256) as u8, jf: 0, k: blocked[i] })
        + seq![
            SockFilter { code: BPF_RETURN, jt: 0, jf: 0, k: SECCOMP_RET_ALLOW },
            SockFilter { code: BPF_RETURN, jt: 0, jf: 0, k: deny_action(enforcement) },
        ]
}

/// Build a BPF filter that blocks the given syscall numbers.
///
/// The program loads the system call number, compares it with each refused
/// number in turn (jumping to the refusal on a match), allows by default, and
/// refuses at the end.
pub fn build_bpf_filter(blocked: &[u32], enforcement: EnforcementLevel) -> (filter: Vec<SockFilter>)
    ensures
        filter@ == bpf_filter_spec(blocked@, enforcement),
{
    let mut filter: Vec<SockFilter> = Vec::new();
    // Load the syscall number: LD [seccomp_data.nr]
    filter.push(SockFilter { code: BPF_LD | BPF_W | BPF_ABS, jt: 0, jf: 0, k: SECCOMP_DATA_NR_OFFSET });
    assert((BPF_LD | BPF_W | BPF_ABS) == 0x20u16) by (bit_vector);
    let num_blocked = blocked.len();
    assert((BPF_JMP | BPF_JEQ | BPF_K) == 0x15u16) by (bit_vector);
    let mut i: usize = 0;
    while i < num_blocked
        invariant
            num_blocked == blocked@.len(),
            (BPF_JMP | BPF_JEQ | BPF_K) == BPF_JUMP_IF_EQUAL,
            0 <= i <= num_blocked,
            filter@.len() == i + 1,
            filter@[0] == (SockFilter { code: BPF_LOAD_WORD, jt: 0, jf: 0, k: SECCOMP_DATA_NR_OFFSET }),
            forall|j: int| 0 <= j < i ==> #[trigger] filter@[j + 1] == (SockFilter {
                code: BPF_JUMP_IF_EQUAL,
                jt: ((num_blocked - j) % 256) as u8,
                jf: 0,
                k: blocked@[j],
            }),
        decreases num_blocked - i,
    {
        // Jump to deny = (num_blocked - i) instructions ahead.
        let jt = ((num_blocked - i) % 256) as u8;
        filter.push(SockFilter { code: BPF_JMP | BPF_JEQ | BPF_K, jt, jf: 0, k: blocked[i] });
        assert(filter@[i as int + 1] == (SockFilter {
            code: BPF_JUMP_IF_EQUAL,
            jt: ((num_blocked - i as int) % 256) as u8,
            jf: 0,
            k: blocked@[i as int],
        }));
        i = i + 1;
    }
    // Default action: ALLOW all non-blocked syscalls.
    filter.push(SockFilter { code: BPF_RET | BPF_K, jt: 0, jf: 0, k: SECCOMP_RET_ALLOW });
    assert((BPF_RET | BPF_K) == 0x06u16) by (bit_vector);
    // Deny action: return EPERM (or LOG in permissive).
    let deny = if enforcement == EnforcementLevel::Permissive {
        SECCOMP_RET_LOG
    } else {
        let e = eperm() as u32;
        assert((0x0005_0000u32 | (1u32 & 0xFFFFu32)) == 0x0005_0001u32) by (bit_vector);
        SECCOMP_RET_ERRNO | (e & 0xFFFF)
    };
    filter.push(SockFilter { code: BPF_RET | BPF_K, jt: 0, jf: 0, k: deny });
    proof {
        let f = bpf_filter_spec(blocked@, enforcement);
        let n = num_blocked as int;
        assert(deny == deny_action(enforcement));
        assert(f.len() == n + 3);
        assert forall|k: int| 0 <= k < filter@.len() implies filter@[k] == f[k] by {
            if 1 <= k <= n {
                let j = k - 1;
                assert(filter@[j + 1] == (SockFilter {
                    code: BPF_JUMP_IF_EQUAL,
                    jt: ((num_blocked - j) % 256) as u8,
                    jf: 0,
                    k: blocked@[j],
                }));
            }
        }
        assert(filter@ =~= f);
    }
    filter
}

/// Scanning the comparisons from position `i` on: the program refuses `nr`
/// exactly when one of the remaining refused numbers is `nr`.
proof fn lemma_filter_scan(blocked: Seq<u32>, enforcement: EnforcementLevel, i: int, nr: u32)
    requires
        0 <= i <= blocked.len(),
        blocked.len() <= 255,
    ensures
        bpf_exec(bpf_filter_spec(blocked, enforcement), 1 + i, nr, nr) == Some(
            if exists|j: int| i <= j < blocked.len() && blocked[j] == nr {
                deny_action(enforcement)
            } else {
                SECCOMP_RET_ALLOW
            },
        ),
    decreases blocked.len() - i,
{
    let prog = bpf_filter_spec(blocked, enforcement);
    let n = blocked.len() as int;
    assert(prog.len() == n + 3);
    if i == n {
        assert(prog[1 + i] == SockFilter { code: BPF_RETURN, jt: 0, jf: 0, k: SECCOMP_RET_ALLOW });
    } else {
        let ins = prog[1 + i];
        assert(ins == SockFilter { code: BPF_JUMP_IF_EQUAL, jt: ((n - i) % 256) as u8, jf: 0, k: blocked[i] });
        assert(((n - i) % 256) as u8 as int == n - i);
        if blocked[i] == nr {
            assert(prog[n + 2] == SockFilter { code: BPF_RETURN, jt: 0, jf: 0, k: deny_action(enforcement) });
            assert(bpf_exec(prog, n + 2, nr, nr) == Some(deny_action(enforcement)));
        } else {
            lemma_filter_scan(blocked, enforcement, i + 1, nr);
            if exists|j: int| i <= j < blocked.len() && blocked[j] == nr {
                let j = choose|j: int| i <= j < blocked.len() && blocked[j] == nr;
                assert(j != i);
            }
        }
    }
}

/// The filter built for `blocked` refuses a system call exactly when its number
/// is one of `blocked`, and allows every other one.
pub proof fn lemma_filter_refuses_exactly(blocked: Seq<u32>, enforcement: EnforcementLevel, nr: u32)
    requires
        blocked.len() <= 255,
    ensures
        bpf_run(bpf_filter_spec(blocked, enforcement), nr) == Some(
            if blocked.contains(nr) {
                deny_action(enforcement)
            } else {
                SECCOMP_RET_ALLOW
            },
        ),
{
    let prog = bpf_filter_spec(blocked, enforcement);
    assert(prog[0] == SockFilter { code: BPF_LOAD_WORD, jt: 0, jf: 0, k: SECCOMP_DATA_NR_OFFSET });
    lemma_filter_scan(blocked, enforcement, 0, nr);
    if blocked.contains(nr) {
        let j = choose|j: int| 0 <= j < blocked.len() && blocked[j] == nr;
        assert(exists|j: int| 0 <= j < blocked.len() && blocked[j] == nr);
    }
}

/// Whether `s` is strictly increasing.
pub open spec fn strictly_increasing(s: Seq<u32>) -> bool {
    forall|i: int, j: int| 0 <= i < j < s.len() ==> s[i] < s[j]
}

/// `v` sorted in increasing order, each number once.
pub fn sort_dedup(v: &[u32]) -> (r: Vec<u32>)
    ensures
        strictly_increasing(r@),
        forall|x: u32| r@.contains(x) <==> v@.contains(x),
        r@.len() <= v@.len(),
{
    let mut r: Vec<u32> = Vec::new();
    let mut i: usize = 0;
    while i < v.len()
        invariant
            0 <= i <= v@.len(),
            strictly_increasing(r@),
            forall|x: u32| r@.contains(x) <==> v@.take(i as int).contains(x),
            r@.len() <= i,
        decreases v.len() - i,
    {
        let x = v[i];
        // Find the first position holding a number not below x.
        let mut p: usize = 0;
        while p < r.len() && r[p] < x
            invariant
                0 <= p <= r@.len(),
                forall|j: int| 0 <= j < p ==> r@[j] < x,
            decreases r.len() - p,
        {
            p = p + 1;
        }
        let ghost old_r = r@;
        if p < r.len() && r[p] == x {
            // Already present.
        } else {
            r.insert(p, x);
            proof {
                assert forall|a: int, b: int| 0 <= a < b < r@.len() implies r@[a] < r@[b] by {
                    if a < p as int && b == p as int {
                    } else if a < p as int && b > p as int {
                        assert(r@[b] == old_r[b - 1]);
                        assert(old_r[b - 1] >= x) by {
                            if p < old_r.len() {
                                assert(old_r[p as int] != x);
                                assert(old_r[p as int] >= x);
                                if b - 1 > p as int {
                                    assert(old_r[p as int] < old_r[b - 1]);
                                }
                            }
                        }
                    } else if a == p as int {
                        assert(r@[b] == old_r[b - 1]);
                        assert(old_r[p as int] >= x);
                        if b - 1 > p as int {
                            assert(old_r[p as int] < old_r[b - 1]);
                        }
                        assert(old_r[p as int] != x);
                    } else if a > p as int {
                        assert(r@[a] == old_r[a - 1]);
                        assert(r@[b] == old_r[b - 1]);
                    } else {
                        assert(r@[a] == old_r[a]);
                        assert(r@[b] == old_r[b]);
                    }
                }
            }
        }
        proof {
            let t = v@.take(i + 1);
            assert(t =~= v@.take(i as int).push(x));
            assert forall|y: u32| r@.contains(y) <==> t.contains(y) by {
                if r@.contains(y) {
                    let k = choose|k: int| 0 <= k < r@.len() && r@[k] == y;
                    if y != x {
                        if r@ != old_r {
                            if k < p as int {
                                assert(old_r[k] == y);
                            } else if k > p as int {
                                assert(old_r[k - 1] == y);
                            }
                        }
                        assert(old_r.contains(y));
                        let m = choose|m: int| 0 <= m < i && v@.take(i as int)[m] == y;
                        assert(t[m] == y);
                    } else {
                        assert(t[i as int] == x);
                    }
                }
                if t.contains(y) {
                    let m = choose|m: int| 0 <= m < t.len() && t[m] == y;
                    if m < i {
                        assert(v@.take(i as int)[m] == y);
                        assert(old_r.contains(y));
                        let k = choose|k: int| 0 <= k < old_r.len() && old_r[k] == y;
                        if r@ != old_r {
                            if k < p as int {
                                assert(r@[k] == y);
                            } else {
                                assert(r@[k + 1] == y);
                            }
                        }
                    } else {
                        if r@ == old_r {
                            assert(r@[p as int] == x);
                        } else {
                            assert(r@[p as int] == x);
                        }
                    }
                }
            }
        }
        i = i + 1;
    }
    assert(v@.take(v@.len() as int) =~= v@);
    r
}

/// The system calls that a policy refuses.
pub open spec fn refused_by(policy: SandboxPolicy, arch: Arch, nr: u32) -> bool {
    (policy.enforcement == EnforcementLevel::Strict && blocked_syscalls_spec(arch).contains(nr))
        || (!policy.allow_network && network_syscalls_spec(arch).contains(nr))
}

/// The system calls a filter refuses, by number. Without network access the
/// socket calls are refused on both architectures: `socket`, `connect`,
/// `accept`, `sendto`, `recvfrom`, `sendmsg`, `recvmsg`, `bind`, `listen`
/// and `accept4` (41, 42, 43, 44, 45, 46, 47, 49, 50, 288 on x86_64; 198,
/// 203, 202, 206, 207, 211, 212, 200, 201, 242 on aarch64). In strict mode
/// `ptrace`, `mount`, `umount2`, `reboot`, `init_module`, `delete_module`,
/// `kexec_load`, `open_by_handle_at`, `process_vm_readv`,
/// `process_vm_writev`, `finit_module` and `kexec_file_load` are refused too
/// (101, 165, 166, 169, 175, 176, 246, 304, 310, 311, 313, 320 on x86_64;
/// 117, 21, 39, 142, 105, 106, 104, 265, 270, 271, 273, 294 on aarch64).
/// Nothing else is refused; in particular `rseq` (334 on x86_64, 293 on
/// aarch64) never is.
pub proof fn lemma_refused_syscall_numbers(policy: SandboxPolicy, nr: u32)
    ensures
        refused_by(policy, Arch::X86_64, nr) <==> (!policy.allow_network && (nr == 41 || nr == 42 || nr == 43
            || nr == 44 || nr == 45 || nr == 46 || nr == 47 || nr == 49 || nr == 50 || nr == 288)) || (
        policy.enforcement == EnforcementLevel::Strict && (nr == 101 || nr == 165 || nr == 166 || nr == 169
            || nr == 175 || nr == 176 || nr == 246 || nr == 304 || nr == 310 || nr == 311 || nr == 313 || nr
            == 320)),
        refused_by(policy, Arch::Aarch64, nr) <==> (!policy.allow_network && (nr == 198 || nr == 203 || nr
            == 202 || nr == 206 || nr == 207 || nr == 211 || nr == 212 || nr == 200 || nr == 201 || nr == 242))
            || (policy.enforcement == EnforcementLevel::Strict && (nr == 117 || nr == 21 || nr == 39 || nr == 142
            || nr == 105 || nr == 106 || nr == 104 || nr == 265 || nr == 270 || nr == 271 || nr == 273 || nr
            == 294)),
        !refused_by(policy, Arch::X86_64, 334),
        !refused_by(policy, Arch::Aarch64, 293),
{
    let nx = network_syscalls_spec(Arch::X86_64);
    let na = network_syscalls_spec(Arch::Aarch64);
    let bx = blocked_syscalls_spec(Arch::X86_64);
    let ba = blocked_syscalls_spec(Arch::Aarch64);
    assert(nx.contains(nr) <==> (nr == 41 || nr == 42 || nr == 43 || nr == 44 || nr == 45 || nr == 46 || nr
        == 47 || nr == 49 || nr == 50 || nr == 288)) by {
        if nx.contains(nr) {
            let i = choose|i: int| 0 <= i < nx.len() && nx[i] == nr;
        }
        if nr == 41 { assert(nx[0] == nr); }
        if nr == 42 { assert(nx[1] == nr); }
        if nr == 43 { assert(nx[2] == nr); }
        if nr == 44 { assert(nx[3] == nr); }
        if nr == 45 { assert(nx[4] == nr); }
        if nr == 46 { assert(nx[5] == nr); }
        if nr == 47 { assert(nx[6] == nr); }
        if nr == 49 { assert(nx[7] == nr); }
        if nr == 50 { assert(nx[8] == nr); }
        if nr == 288 { assert(nx[9] == nr); }
    }
    assert(na.contains(nr) <==> (nr == 198 || nr == 203 || nr == 202 || nr == 206 || nr == 207 || nr == 211
        || nr == 212 || nr == 200 || nr == 201 || nr == 242)) by {
        if na.contains(nr) {
            let i = choose|i: int| 0 <= i < na.len() && na[i] == nr;
        }
        if nr == 198 { assert(na[0] == nr); }
        if nr == 203 { assert(na[1] == nr); }
        if nr == 202 { assert(na[2] == nr); }
        if nr == 206 { assert(na[3] == nr); }
        if nr == 207 { assert(na[4] == nr); }
        if nr == 211 { assert(na[5] == nr); }
        if nr == 212 { assert(na[6] == nr); }
        if nr == 200 { assert(na[7] == nr); }
        if nr == 201 { assert(na[8] == nr); }
        if nr == 242 { assert(na[9] == nr); }
    }
    assert(bx.contains(nr) <==> (nr == 101 || nr == 165 || nr == 166 || nr == 169 || nr == 175 || nr == 176
        || nr == 246 || nr == 304 || nr == 310 || nr == 311 || nr == 313 || nr == 320)) by {
        if bx.contains(nr) {
            let i = choose|i: int| 0 <= i < bx.len() && bx[i] == nr;
        }
        if nr == 101 { assert(bx[0] == nr); }
        if nr == 165 { assert(bx[1] == nr); }
        if nr == 166 { assert(bx[2] == nr); }
        if nr == 169 { assert(bx[3] == nr); }
        if nr == 175 { assert(bx[4] == nr); }
        if nr == 176 { assert(bx[5] == nr); }
        if nr == 246 { assert(bx[6] == nr); }
        if nr == 304 { assert(bx[7] == nr); }
        if nr == 310 { assert(bx[8] == nr); }
        if nr == 311 { assert(bx[9] == nr); }
        if nr == 313 { assert(bx[10] == nr); }
        if nr == 320 { assert(bx[11] == nr); }
    }
    assert(ba.contains(nr) <==> (nr == 117 || nr == 21 || nr == 39 || nr == 142 || nr == 105 || nr == 106
        || nr == 104 || nr == 265 || nr == 270 || nr == 271 || nr == 273 || nr == 294)) by {
        if ba.contains(nr) {
            let i = choose|i: int| 0 <= i < ba.len() && ba[i] == nr;
        }
        if nr == 117 { assert(ba[0] == nr); }
        if nr == 21 { assert(ba[1] == nr); }
        if nr == 39 { assert(ba[2] == nr); }
        if nr == 142 { assert(ba[3] == nr); }
        if nr == 105 { assert(ba[4] == nr); }
        if nr == 106 { assert(ba[5] == nr); }
        if nr == 104 { assert(ba[6] == nr); }
        if nr == 265 { assert(ba[7] == nr); }
        if nr == 270 { assert(ba[8] == nr); }
        if nr == 271 { assert(ba[9] == nr); }
        if nr == 273 { assert(ba[10] == nr); }
        if nr == 294 { assert(ba[11] == nr); }
    }
    assert(!nx.contains(334u32) && !bx.contains(334u32)) by {
        if nx.contains(334u32) {
            let i = choose|i: int| 0 <= i < nx.len() && nx[i] == 334u32;
        }
        if bx.contains(334u32) {
            let i = choose|i: int| 0 <= i < bx.len() && bx[i] == 334u32;
        }
    }
    assert(!na.contains(293u32) && !ba.contains(293u32)) by {
        if na.contains(293u32) {
            let i = choose|i: int| 0 <= i < na.len() && na[i] == 293u32;
        }
        if ba.contains(293u32) {
            let i = choose|i: int| 0 <= i < ba.len() && ba[i] == 293u32;
        }
    }
}

/// Build the BPF filter program for a policy.
pub fn build_filter(policy: &SandboxPolicy, arch: Arch) -> (filter: Vec<SockFilter>)
    ensures
        forall|nr: u32| #[trigger] bpf_run(filter@, nr) == Some(
            if refused_by(*policy, arch, nr) {
                deny_action(policy.enforcement)
            } else {
                SECCOMP_RET_ALLOW
            },
        ),
        exists|blocked: Seq<u32>|
            #![trigger bpf_filter_spec(blocked, policy.enforcement)]
            {
                &&& filter@ == bpf_filter_spec(blocked, policy.enforcement)
                &&& strictly_increasing(blocked)
                &&& forall|nr: u32| blocked.contains(nr) <==> refused_by(*policy, arch, nr)
            },
{
    // Collect all syscalls to block.
    let mut blocked: Vec<u32> = Vec::new();
    if policy.enforcement == EnforcementLevel::Strict {
        let b = blocked_syscalls(arch);
        blocked = b;
    }
    if !policy.allow_network {
        let n = network_syscalls(arch);
        let ghost before = blocked@;
        let mut k: usize = 0;
        while k < n.len()
            invariant
                0 <= k <= n@.len(),
                blocked@ == before + n@.take(k as int),
            decreases n.len() - k,
        {
            blocked.push(n[k]);
            k = k + 1;
            assert(blocked@ =~= before + n@.take(k as int));
        }
        assert(n@.take(n@.len() as int) =~= n@);
    }
    proof {
        assert forall|nr: u32| blocked@.contains(nr) <==> refused_by(*policy, arch, nr) by {
            let b = blocked_syscalls_spec(arch);
            let m = network_syscalls_spec(arch);
            if policy.enforcement == EnforcementLevel::Strict && !policy.allow_network {
                assert(blocked@ =~= b + m);
                if b.contains(nr) {
                    let j = choose|j: int| 0 <= j < b.len() && b[j] == nr;
                    assert(blocked@[j] == nr);
                }
                if m.contains(nr) {
                    let j = choose|j: int| 0 <= j < m.len() && m[j] == nr;
                    assert(blocked@[b.len() + j] == nr);
                }
                if blocked@.contains(nr) {
                    let j = choose|j: int| 0 <= j < blocked@.len() && blocked@[j] == nr;
                    if j < b.len() {
                        assert(b[j] == nr);
                    } else {
                        assert(m[j - b.len()] == nr);
                    }
                }
            } else if !policy.allow_network {
                assert(blocked@ =~= m);
            } else if policy.enforcement == EnforcementLevel::Strict {
                assert(blocked@ =~= b);
            } else {
                assert(blocked@ =~= Seq::<u32>::empty());
            }
        }
    }
    // Deduplicate (the lists should not overlap, but just in case).
    let sorted = sort_dedup(blocked.as_slice());
    let filter = build_bpf_filter(sorted.as_slice(), policy.enforcement);
    proof {
        assert(blocked@.len() <= 22);
        assert forall|nr: u32| #[trigger] bpf_run(filter@, nr) == Some(
            if refused_by(*policy, arch, nr) {
                deny_action(policy.enforcement)
            } else {
                SECCOMP_RET_ALLOW
            },
        ) by {
            lemma_filter_refuses_exactly(sorted@, policy.enforcement, nr);
        }
    }
    filter
}

/// Whether applying a policy installs a seccomp filter: only an enabled,
/// non-permissive policy that is strict or refuses the network does.
pub open spec fn seccomp_needed_spec(policy: SandboxPolicy) -> bool {
    policy.enabled && policy.enforcement != EnforcementLevel::Permissive
        && (policy.enforcement == EnforcementLevel::Strict || !policy.allow_network)
}

/// When a filter is installed: never for a disabled policy or in
/// permissive mode; always for an enabled policy in strict mode; in
/// enforcing mode exactly when the network is not allowed. A permissive
/// policy only logs what a filter would refuse; otherwise refusals answer
/// `EPERM`.
pub proof fn lemma_filter_installed_when(policy: SandboxPolicy)
    ensures
        !policy.enabled ==> !seccomp_needed_spec(policy),
        policy.enforcement == EnforcementLevel::Permissive ==> !seccomp_needed_spec(policy),
        policy.enabled && policy.enforcement == EnforcementLevel::Strict ==> seccomp_needed_spec(policy),
        policy.enabled && policy.enforcement == EnforcementLevel::Enforcing ==> (seccomp_needed_spec(policy)
            <==> !policy.allow_network),
        deny_action(EnforcementLevel::Permissive) == SECCOMP_RET_LOG,
        deny_action(EnforcementLevel::Enforcing) == (SECCOMP_RET_ERRNO | 1u32),
        deny_action(EnforcementLevel::Strict) == (SECCOMP_RET_ERRNO | 1u32),
{
    assert((SECCOMP_RET_ERRNO | 1u32) == 0x0005_0001u32) by (bit_vector);
}

/// The filter that applying a policy installs, if any.
///
/// Installs a BPF filter when:
/// - **Strict mode**: blocks dangerous syscalls + network if disabled
/// - **Enforcing mode + allow_network=false**: blocks network syscalls only
/// - **Permissive mode**: no restrictions
pub fn seccomp_filter_for(policy: &SandboxPolicy, arch: Arch) -> (r: Option<Vec<SockFilter>>)
    ensures
        r is Some <==> seccomp_needed_spec(*policy),
        r matches Some(f) ==> forall|nr: u32| #[trigger] bpf_run(f@, nr) == Some(
            if refused_by(*policy, arch, nr) {
                deny_action(policy.enforcement)
            } else {
                SECCOMP_RET_ALLOW
            },
        ),
        r matches Some(f) ==> exists|blocked: Seq<u32>|
            #![trigger bpf_filter_spec(blocked, policy.enforcement)]
            {
                &&& f@ == bpf_filter_spec(blocked, policy.enforcement)
                &&& forall|nr: u32| blocked.contains(nr) <==> refused_by(*policy, arch, nr)
            },
{
    if !policy.enabled || policy.enforcement == EnforcementLevel::Permissive {
        return None;
    }
    // Determine which syscalls to block.
    let needs_dangerous_block = policy.enforcement == EnforcementLevel::Strict;
    let needs_network_block = !policy.allow_network;
    if !needs_dangerous_block && !needs_network_block {
        return None;
    }
    Some(build_filter(policy, arch))
}

/// Error raised when the seccomp filter cannot be installed.
#[derive(Debug)]
pub enum SeccompError {
    /// `prctl(PR_SET_SECCOMP)` failed, with the system's description.
    InstallFilter(String),
}

impl SeccompError {
    /// The human-readable description of the error.
    pub fn message(&self) -> (r: String)
        ensures
            r@ == match self {
                SeccompError::InstallFilter(e) => "Failed to install seccomp filter: "@ + e@,
            },
    {
        let mut r = String::new();
        match self {
            SeccompError::InstallFilter(e) => {
                crate::text::push_str(&mut r, "Failed to install seccomp filter: ");
                crate::text::push_str(&mut r, e.as_str());
            },
        }
        r
    }
}

/// Whether the kernel supports seccomp, from what `prctl(PR_GET_SECCOMP)`
/// returned: `0` (not active) or `2` (a filter is active) mean supported,
/// `-1` (`EINVAL`) means not.
pub fn seccomp_supported_from(prctl_result: i32) -> (r: bool)
    ensures
        r == (prctl_result >= 0),
{
    prctl_result >= 0
}

} // verus!
