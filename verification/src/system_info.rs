//! A summary of the machine: memory, processors, disks, operating system and
//! the Python interpreter that the scripts need.
use vstd::prelude::*;

use crate::text::{chars_of, copy_range, string_from_chars, string_of, string_views, trim, trimmed};

verus! {

// ---------------------------------------------------------------------------
// The system-information crate
// ---------------------------------------------------------------------------

/// `sysinfo::System`, carried through opaquely.
#[verifier::external_type_specification]
#[verifier::external_body]
pub struct ExSystem(sysinfo::System);

/// `sysinfo::Disks`, carried through opaquely.
#[verifier::external_type_specification]
#[verifier::external_body]
pub struct ExDisks(sysinfo::Disks);

/// `sysinfo::Disk`, the item type of `Disks`; declared because `Disks`
/// dereferences to a slice of it.
#[verifier::external_type_specification]
#[verifier::external_body]
pub struct ExDisk(sysinfo::Disk);

/// `sysinfo::System::new_all`: a snapshot of the machine with everything
/// loaded. Its contents depend on the machine and the moment; nothing is
/// stated of them.
#[verifier::external_body]
fn system_new_all() -> (r: sysinfo::System) {
    sysinfo::System::new_all()
}

/// `sysinfo::System::refresh_all`. Nothing is stated of the new readings.
#[verifier::external_body]
fn system_refresh_all(sys: &mut sysinfo::System) {
    sys.refresh_all()
}

/// `sysinfo::System::refresh_memory`. Nothing is stated of the new readings.
#[verifier::external_body]
fn system_refresh_memory(sys: &mut sysinfo::System) {
    sys.refresh_memory()
}

/// `sysinfo::System::total_memory`: the RAM size in bytes, as read from the
/// machine; nothing is stated of the value.
#[verifier::external_body]
fn system_total_memory(sys: &sysinfo::System) -> (r: u64) {
    sys.total_memory()
}

/// `sysinfo::System::available_memory`: the available RAM in bytes, as read
/// from the machine; nothing is stated of the value.
#[verifier::external_body]
fn system_available_memory(sys: &sysinfo::System) -> (r: u64) {
    sys.available_memory()
}

/// `sysinfo::System::cpus`, each processor handed out as its brand
/// (`sysinfo::Cpu::brand`). Nothing is stated of the list.
#[verifier::external_body]
fn system_cpu_brands(sys: &sysinfo::System) -> (r: Vec<String>) {
    sys.cpus().iter().map(|cpu| cpu.brand().to_string()).collect()
}

/// `sysinfo::System::name`: the operating system's name, if known.
#[verifier::external_body]
fn system_os_name() -> (r: Option<String>) {
    sysinfo::System::name()
}

/// `sysinfo::System::os_version`: the operating system's version, if known.
#[verifier::external_body]
fn system_os_version() -> (r: Option<String>) {
    sysinfo::System::os_version()
}

/// `sysinfo::Disks::new_with_refreshed_list`: the machine's disks.
#[verifier::external_body]
fn disks_refreshed() -> (r: sysinfo::Disks) {
    sysinfo::Disks::new_with_refreshed_list()
}

/// `sysinfo::Disks::list`, each disk handed out as its total and available
/// space in bytes (`Disk::total_space`, `Disk::available_space`). Nothing is
/// stated of the values.
#[verifier::external_body]
fn disk_spaces(disks: &sysinfo::Disks) -> (r: Vec<(u64, u64)>) {
    disks.list().iter().map(|d| (d.total_space(), d.available_space())).collect()
}

// ---------------------------------------------------------------------------
// The summary
// ---------------------------------------------------------------------------

/// What the summary of the machine reports.
pub struct SystemInfo {
    pub os_name: String,
    pub os_version: String,
    pub cpu_brand: String,
    pub cpu_cores: usize,
    pub total_memory_mb: u64,
    pub available_memory_mb: u64,
    pub total_disk_gb: u64,
    pub available_disk_gb: u64,
    pub is_low_spec: bool,
    pub python_available: bool,
    pub python_version: String,
}

/// The raw readings that the summary is computed from.
pub struct HardwareReadings {
    pub total_memory_bytes: u64,
    pub available_memory_bytes: u64,
    pub cpu_brands: Vec<String>,
    pub os_name: Option<String>,
    pub os_version: Option<String>,
    /// Total and available space of each disk, in bytes.
    pub disks: Vec<(u64, u64)>,
}

pub open spec fn mib() -> nat {
    1024 * 1024
}

pub open spec fn gib() -> nat {
    1024 * 1024 * 1024
}

/// The sum over the disks of the whole gibibytes of their total space
/// (`total` set) or of their available space.
pub open spec fn disk_gib_sum(disks: Seq<(u64, u64)>, total: bool) -> nat
    decreases disks.len(),
{
    if disks.len() == 0 {
        0
    } else {
        let d = disks.last();
        disk_gib_sum(disks.drop_last(), total) + (if total {
            d.0
        } else {
            d.1
        }) as nat / gib()
    }
}

/// `n`, or the largest `u64` when `n` does not fit.
pub open spec fn cap_u64(n: nat) -> nat {
    if n > u64::MAX {
        u64::MAX as nat
    } else {
        n
    }
}

/// The low-spec rule: under 4096 MiB of RAM, or at most two processors.
pub open spec fn is_low_spec_spec(total_memory_mb: nat, cpu_cores: nat) -> bool {
    total_memory_mb < 4096 || cpu_cores <= 2
}

/// How the summary follows from the readings: sizes in whole mebibytes and
/// gibibytes (disk sums capped at the largest `u64`), the first processor's
/// brand, placeholders for what is unknown, and the low-spec rule.
pub open spec fn is_summary_of(
    info: SystemInfo,
    readings: HardwareReadings,
    python_available: bool,
    python_version: Seq<char>,
) -> bool {
    &&& info.total_memory_mb == readings.total_memory_bytes as nat / mib()
    &&& info.available_memory_mb == readings.available_memory_bytes as nat / mib()
    &&& info.cpu_cores == readings.cpu_brands@.len()
    &&& info.cpu_brand@ == (if readings.cpu_brands@.len() > 0 {
        readings.cpu_brands@[0]@
    } else {
        "CPU Desconocido"@
    })
    &&& info.os_name@ == (match readings.os_name {
        Some(n) => n@,
        None => "Desconocido"@,
    })
    &&& info.os_version@ == (match readings.os_version {
        Some(v) => v@,
        None => "N/A"@,
    })
    &&& info.total_disk_gb == cap_u64(disk_gib_sum(readings.disks@, true))
    &&& info.available_disk_gb == cap_u64(disk_gib_sum(readings.disks@, false))
    &&& info.is_low_spec == is_low_spec_spec(info.total_memory_mb as nat, info.cpu_cores as nat)
    &&& info.python_available == python_available
    &&& info.python_version@ == python_version
}

/// The low-spec flag: a machine with under 4096 MiB of RAM is low spec, so
/// is one with at most two processors, and no other machine is.
pub proof fn law_low_spec(total_memory_mb: nat, cpu_cores: nat)
    ensures
        total_memory_mb < 4096 ==> is_low_spec_spec(total_memory_mb, cpu_cores),
        cpu_cores <= 2 ==> is_low_spec_spec(total_memory_mb, cpu_cores),
        total_memory_mb >= 4096 && cpu_cores > 2 ==> !is_low_spec_spec(total_memory_mb, cpu_cores),
{
}

/// Less than 4096 MiB of memory, counted in bytes, is less than 4096 whole
/// MiB.
proof fn lemma_under_4096_mib(bytes: nat)
    ensures
        bytes < 4096 * mib() ==> bytes / mib() < 4096,
{
    assert(bytes < 4096 * 1048576 ==> bytes / 1048576 < 4096) by (nonlinear_arith);
}

proof fn lemma_mib(x: u64)
    ensures
        (x / 1024 / 1024) as nat == x as nat / mib(),
        x as nat / mib() <= u64::MAX as nat / mib(),
{
    vstd::arithmetic::div_mod::lemma_div_denominator(x as int, 1024, 1024);
    vstd::arithmetic::div_mod::lemma_div_is_ordered(x as int, u64::MAX as int, mib() as int);
}

proof fn lemma_gib(x: u64)
    ensures
        (x / 1024 / 1024 / 1024) as nat == x as nat / gib(),
{
    vstd::arithmetic::div_mod::lemma_div_denominator(x as int, 1024, 1024);
    vstd::arithmetic::div_mod::lemma_div_denominator(x as int, 1048576int, 1024int);
}

fn sum_disk_gib(disks: &Vec<(u64, u64)>, total: bool) -> (r: u64)
    ensures
        r == cap_u64(disk_gib_sum(disks@, total)),
{
    let mut acc: u64 = 0;
    let mut k: usize = 0;
    while k < disks.len()
        invariant
            k <= disks@.len(),
            acc == cap_u64(disk_gib_sum(disks@.take(k as int), total)),
        decreases disks.len() - k,
    {
        let d = disks[k];
        let part = (if total {
            d.0
        } else {
            d.1
        }) / 1024 / 1024 / 1024;
        proof {
            assert(disks@.take(k + 1).drop_last() =~= disks@.take(k as int));
            assert(disks@.take(k + 1).last() == d);
            lemma_gib(if total {
                d.0
            } else {
                d.1
            });
        }
        acc = acc.saturating_add(part);
        k = k + 1;
    }
    proof {
        assert(disks@.take(disks@.len() as int) =~= disks@);
    }
    acc
}

/// The summary of the machine from its readings and the result of the
/// Python probe.
pub fn summarize_system(readings: HardwareReadings, python_available: bool, python_version: String) -> (r:
    SystemInfo)
    ensures
        is_summary_of(r, readings, python_available, python_version@),
        r.total_memory_mb < 4096 ==> r.is_low_spec,
        r.cpu_cores <= 2 ==> r.is_low_spec,
        r.total_memory_mb >= 4096 && r.cpu_cores > 2 ==> !r.is_low_spec,
        (readings.total_memory_bytes as nat) < 4096 * mib() ==> r.is_low_spec,
        readings.cpu_brands@.len() <= 2 ==> r.is_low_spec,
{
    proof {
        lemma_under_4096_mib(readings.total_memory_bytes as nat);
        lemma_mib(readings.total_memory_bytes);
        lemma_mib(readings.available_memory_bytes);
    }
    let total_memory_mb = readings.total_memory_bytes / 1024 / 1024;
    let available_memory_mb = readings.available_memory_bytes / 1024 / 1024;
    let cpu_brand = if readings.cpu_brands.len() > 0 {
        readings.cpu_brands[0].clone()
    } else {
        string_of("CPU Desconocido")
    };
    let cpu_cores = readings.cpu_brands.len();
    let os_name = match &readings.os_name {
        Some(n) => n.clone(),
        None => string_of("Desconocido"),
    };
    let os_version = match &readings.os_version {
        Some(v) => v.clone(),
        None => string_of("N/A"),
    };
    let total_disk_gb = sum_disk_gib(&readings.disks, true);
    let available_disk_gb = sum_disk_gib(&readings.disks, false);
    let is_low_spec = total_memory_mb < 4096 || cpu_cores <= 2;
    SystemInfo {
        os_name,
        os_version,
        cpu_brand,
        cpu_cores,
        total_memory_mb,
        available_memory_mb,
        total_disk_gb,
        available_disk_gb,
        is_low_spec,
        python_available,
        python_version,
    }
}

/// Reads the machine and summarizes it, with the result of the Python probe
/// (which runs programs and so is made by the caller). The readings depend on
/// the machine; what holds of any of them is stated.
pub fn gather_system_info(python_available: bool, python_version: String) -> (r: SystemInfo)
    ensures
        r.python_available == python_available,
        r.python_version@ == python_version@,
        r.is_low_spec == is_low_spec_spec(r.total_memory_mb as nat, r.cpu_cores as nat),
        r.total_memory_mb < 4096 ==> r.is_low_spec,
        r.cpu_cores <= 2 ==> r.is_low_spec,
        r.total_memory_mb >= 4096 && r.cpu_cores > 2 ==> !r.is_low_spec,
        r.total_memory_mb <= u64::MAX as nat / mib(),
        r.available_memory_mb <= u64::MAX as nat / mib(),
        r.cpu_cores == 0 ==> r.cpu_brand@ == "CPU Desconocido"@,
{
    let mut sys = system_new_all();
    system_refresh_all(&mut sys);
    let total_bytes = system_total_memory(&sys);
    let available_bytes = system_available_memory(&sys);
    proof {
        lemma_mib(total_bytes);
        lemma_mib(available_bytes);
    }
    let readings = HardwareReadings {
        total_memory_bytes: total_bytes,
        available_memory_bytes: available_bytes,
        cpu_brands: system_cpu_brands(&sys),
        os_name: system_os_name(),
        os_version: system_os_version(),
        disks: disk_spaces(&disks_refreshed()),
    };
    let r = summarize_system(readings, python_available, python_version);
    r
}

/// Whether `available_bytes` of RAM, in whole mebibytes, reach `required_mb`.
pub fn ram_sufficient(available_bytes: u64, required_mb: u64) -> (r: bool)
    ensures
        r == (available_bytes as nat / mib() >= required_mb),
{
    proof {
        lemma_mib(available_bytes);
    }
    available_bytes / 1024 / 1024 >= required_mb
}

/// Whether the machine's available RAM, in whole mebibytes, reaches
/// `required_mb`. The reading depends on the moment; what holds of every
/// reading is stated.
pub fn check_ram_sufficient(required_mb: u64) -> (r: bool)
    ensures
        required_mb == 0 ==> r,
        required_mb > u64::MAX as nat / mib() ==> !r,
{
    let mut sys = system_new_all();
    system_refresh_memory(&mut sys);
    let available = system_available_memory(&sys);
    proof {
        lemma_mib(available);
    }
    ram_sufficient(available, required_mb)
}

// ---------------------------------------------------------------------------
// The Python interpreter
// ---------------------------------------------------------------------------

/// The interpreter commands tried, in order: on Windows `python`, `python3`,
/// `py`; elsewhere `python3`, `python`.
pub open spec fn python_candidates_spec(windows: bool) -> Seq<Seq<char>> {
    if windows {
        seq!["python"@, "python3"@, "py"@]
    } else {
        seq!["python3"@, "python"@]
    }
}

/// The interpreter commands to try, in order.
pub fn python_candidates(windows: bool) -> (r: Vec<String>)
    ensures
        string_views(r@) == python_candidates_spec(windows),
{
    let mut v: Vec<String> = Vec::new();
    if windows {
        v.push(string_of("python"));
        v.push(string_of("python3"));
        v.push(string_of("py"));
    } else {
        v.push(string_of("python3"));
        v.push(string_of("python"));
    }
    proof {
        assert(string_views(v@) =~= python_candidates_spec(windows));
    }
    v
}

/// `str::trim_start_matches(prefix)`: `s` without any number of leading
/// copies of the non-empty `prefix`.
pub open spec fn strip_prefix_repeated(s: Seq<char>, prefix: Seq<char>) -> Seq<char>
    decreases s.len(),
{
    if prefix.len() > 0 && prefix.len() <= s.len() && s.take(prefix.len() as int) == prefix {
        strip_prefix_repeated(s.skip(prefix.len() as int), prefix)
    } else {
        s
    }
}

fn strip_prefix_repeatedly(s: &Vec<char>, prefix: &Vec<char>) -> (r: Vec<char>)
    requires
        prefix@.len() > 0,
    ensures
        r@ == strip_prefix_repeated(s@, prefix@),
{
    let n = s.len();
    let p = prefix.len();
    let mut start: usize = 0;
    proof {
        assert(s@.skip(0) =~= s@);
    }
    loop
        invariant
            n == s@.len(),
            p == prefix@.len(),
            p > 0,
            start <= n,
            strip_prefix_repeated(s@, prefix@) == strip_prefix_repeated(
                s@.skip(start as int),
                prefix@,
            ),
        decreases n - start,
    {
        if p > n - start {
            return copy_range(s, start, n);
        }
        let mut k: usize = 0;
        let mut same = true;
        while k < p
            invariant
                p == prefix@.len(),
                start + p <= n,
                n == s@.len(),
                k <= p,
                same <==> forall|m: int| 0 <= m < k ==> s@[start + m] == prefix@[m],
            decreases p - k,
        {
            if s[start + k] != prefix[k] {
                same = false;
            }
            k = k + 1;
        }
        let ghost rest = s@.skip(start as int);
        if !same {
            proof {
                assert(rest.take(p as int) != prefix@) by {
                    let m = choose|m: int| 0 <= m < p && s@[start + m] != prefix@[m];
                    assert(rest.take(p as int)[m] == s@[start + m]);
                }
                assert(rest =~= s@.subrange(start as int, n as int));
            }
            return copy_range(s, start, n);
        }
        proof {
            assert(rest.take(p as int) =~= prefix@);
            assert(rest.skip(p as int) =~= s@.skip(start + p));
        }
        start = start + p;
    }
}

/// The version shown for an interpreter from what `--version` printed: the
/// trimmed output with any leading `Python ` removed, standard output first,
/// then standard error, else `Desconocida`.
pub open spec fn python_version_spec(stdout: Seq<char>, stderr: Seq<char>) -> Seq<char> {
    let out = strip_prefix_repeated(trimmed(stdout), "Python "@);
    let err = strip_prefix_repeated(trimmed(stderr), "Python "@);
    if out.len() > 0 {
        out
    } else if err.len() > 0 {
        err
    } else {
        "Desconocida"@
    }
}

/// The interpreter version reported by `--version`.
pub fn python_version_from_output(stdout: &str, stderr: &str) -> (r: String)
    ensures
        r@ == python_version_spec(stdout@, stderr@),
{
    let prefix = chars_of("Python ");
    proof {
        reveal_strlit("Python ");
    }
    let out = strip_prefix_repeatedly(&chars_of(trim(stdout).as_str()), &prefix);
    let err = strip_prefix_repeatedly(&chars_of(trim(stderr).as_str()), &prefix);
    if out.len() > 0 {
        string_from_chars(&out)
    } else if err.len() > 0 {
        string_from_chars(&err)
    } else {
        string_of("Desconocida")
    }
}

/// The Python status of the summary: the version of the first interpreter
/// that answered (its standard output and error), or not found.
pub fn python_status(answer: Option<(String, String)>) -> (r: (bool, String))
    ensures
        match answer {
            Some((out, err)) => r.0 && r.1@ == python_version_spec(out@, err@),
            None => !r.0 && r.1@ == "No detectado"@,
        },
{
    match answer {
        Some((out, err)) => (true, python_version_from_output(out.as_str(), err.as_str())),
        None => (false, string_of("No detectado")),
    }
}

} // verus!
