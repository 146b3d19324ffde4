//! The crash report written when the game hits an unhandled exception: which
//! module the faulting address lies in, and that only the first exception is
//! reported.
use vstd::prelude::*;

verus! {

/// A module loaded in the process: its file name, base address and size.
pub struct Module {
    pub name: String,
    pub addr: usize,
    pub size: usize,
}

/// The general registers at the time of the exception.
#[derive(Debug, Clone, Copy, PartialEq, Eq, Structural)]
pub struct Registers {
    pub eax: u32,
    pub ebx: u32,
    pub ecx: u32,
    pub edx: u32,
    pub esi: u32,
    pub edi: u32,
    pub ebp: u32,
    pub esp: u32,
}

/// What is written about a crash.
pub struct CrashReport {
    pub mem_used: u32,
    pub mem_available: u32,
    pub base_addr: usize,
    pub exception_addr: usize,
    pub exception_code: usize,
    pub exception_library: String,
    pub registers: Registers,
    pub modules: Vec<Module>,
}

/// The module's image covers the address.
pub open spec fn covers(m: Module, addr: usize) -> bool {
    m.addr <= addr && addr < m.addr + m.size
}

/// The position of the last module of `ms` that covers `addr`.
pub open spec fn last_cover(ms: Seq<Module>, addr: usize) -> Option<int>
    decreases ms.len(),
{
    if ms.len() == 0 {
        None
    } else if covers(ms.last(), addr) {
        Some(ms.len() - 1)
    } else {
        last_cover(ms.drop_last(), addr)
    }
}

proof fn lemma_last_cover_push(ms: Seq<Module>, m: Module, addr: usize)
    ensures
        last_cover(ms.push(m), addr) == (if covers(m, addr) {
            Some(ms.len() as int)
        } else {
            last_cover(ms, addr)
        }),
{
    assert(ms.push(m).drop_last() =~= ms);
}

pub open spec fn unknown_module() -> Seq<char> {
    "Unknown module"@
}

/// The name of the module in which the exception was raised: the last module
/// listed whose image covers the address, or "Unknown module".
pub open spec fn library_of(ms: Seq<Module>, addr: usize) -> Seq<char> {
    match last_cover(ms, addr) {
        Some(i) => ms[i].name@,
        None => unknown_module(),
    }
}

/// Names the module in which the exception at `addr` was raised.
pub fn exception_library(modules: &Vec<Module>, addr: usize) -> (name: String)
    ensures
        name@ == library_of(modules@, addr),
{
    let mut found: Option<usize> = None;
    let mut i: usize = 0;
    while i < modules.len()
        invariant
            i <= modules@.len(),
            found == (match last_cover(modules@.take(i as int), addr) {
                Some(k) => Some(k as usize),
                None => None::<usize>,
            }),
            last_cover(modules@.take(i as int), addr) matches Some(k) ==> 0 <= k < i,
        decreases modules@.len() - i,
    {
        let m = &modules[i];
        proof {
            assert(modules@.take(i + 1) =~= modules@.take(i as int).push(modules@[i as int]));
            lemma_last_cover_push(modules@.take(i as int), modules@[i as int], addr);
        }
        if addr >= m.addr && addr - m.addr < m.size {
            found = Some(i);
        }
        i = i + 1;
    }
    proof {
        assert(modules@.take(modules@.len() as int) =~= modules@);
    }
    match found {
        Some(k) => modules[k].name.clone(),
        None => {
            proof {
                reveal_strlit("Unknown module");
            }
            "Unknown module".to_owned()
        },
    }
}

/// Puts the report together; the faulting module is found from the list.
pub fn make_report(
    mem_used: u32,
    mem_available: u32,
    base_addr: usize,
    exception_addr: usize,
    exception_code: usize,
    registers: Registers,
    modules: Vec<Module>,
) -> (r: CrashReport)
    ensures
        r.mem_used == mem_used,
        r.mem_available == mem_available,
        r.base_addr == base_addr,
        r.exception_addr == exception_addr,
        r.exception_code == exception_code,
        r.exception_library@ == library_of(modules@, exception_addr),
        r.registers == registers,
        r.modules@ == modules@,
{
    let exception_library = exception_library(&modules, exception_addr);
    CrashReport {
        mem_used,
        mem_available,
        base_addr,
        exception_addr,
        exception_code,
        exception_library,
        registers,
        modules,
    }
}

/// The number of module handles in `found_bytes` bytes of handles (four
/// bytes each).
pub fn module_count(found_bytes: u32) -> (n: u32)
    ensures
        n == found_bytes / 4,
{
    found_bytes / 4
}

/// Whether a crash was reported already: only the first exception is.
#[derive(Debug, Clone, Copy, PartialEq, Eq, Structural)]
pub struct CrashGuard {
    pub sent: bool,
}

/// An exception is reported when none was before; after it, one was.
pub open spec fn begin_spec(g: CrashGuard) -> (bool, CrashGuard) {
    (!g.sent, CrashGuard { sent: true })
}

impl CrashGuard {
    pub fn new() -> (g: CrashGuard)
        ensures
            !g.sent,
    {
        CrashGuard { sent: false }
    }

    /// An exception was raised: whether to report it. Only the first one is;
    /// later ones go straight to the previous handler.
    pub fn begin(&mut self) -> (report: bool)
        ensures
            (report, *final(self)) == begin_spec(*old(self)),
    {
        if self.sent {
            false
        } else {
            self.sent = true;
            true
        }
    }
}

/// Only one exception is ever reported: whatever the guard, the exception
/// after one that was looked at is not reported.
pub proof fn law_report_once(g: CrashGuard)
    ensures
        !begin_spec(begin_spec(g).1).0,
        begin_spec(CrashGuard { sent: false }).0,
{
}

} // verus!
