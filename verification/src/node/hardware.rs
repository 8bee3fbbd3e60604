//! Telling physical machines from virtual ones, and fast from slow.
//!
//! The node's shell runs the probes and the benchmark. What their results
//! mean is decided here.

use crate::bytes::{contains_bytes, occurs_in};
use vstd::prelude::*;
use vstd::utf8::encode_utf8;

verus! {

/// What a machine runs on.
#[derive(Debug, Clone, PartialEq)]
pub enum VirtualizationType {
    /// Hardware of its own.
    Physical,
    /// A virtual machine or container of the named kind.
    Virtual(String),
}

/// A kind of machine as contracts see it.
pub enum VirtualizationView {
    Physical,
    Virtual(Seq<char>),
}

impl View for VirtualizationType {
    type V = VirtualizationView;

    open spec fn view(&self) -> VirtualizationView {
        match *self {
            VirtualizationType::Physical => VirtualizationView::Physical,
            VirtualizationType::Virtual(kind) => VirtualizationView::Virtual(kind@),
        }
    }
}

/// The operating system of a machine.
#[derive(Debug, Clone, Copy, PartialEq, Eq, Structural)]
pub enum OperatingSystem {
    Windows,
    MacOS,
    Linux,
    Unknown,
}

/// Why the hardware was not accepted.
#[derive(Debug, Clone, Copy, PartialEq, Eq, Structural)]
pub enum HardwareError {
    /// The machine is slower than a validator may be.
    InsufficientPerformance,
    /// The probe for virtualization could not be run.
    VirtualizationDetectionError,
}

/// What the probes for virtualization printed. A probe that could not be
/// run has no output.
#[derive(Debug, Clone)]
pub struct VirtualizationProbes {
    /// Linux: what `systemd-detect-virt` printed, trimmed, where it
    /// succeeded.
    pub systemd_detect_virt: Option<String>,
    /// Linux: what `dmidecode -t system` printed.
    pub dmidecode: Option<String>,
    /// Linux: whether the environment names a container or a cluster.
    pub container_environment: bool,
    /// Windows: the computer model that the management interface reports.
    pub computer_model: Option<String>,
    /// Windows: what `systeminfo` printed.
    pub system_info: Option<String>,
    /// Windows: whether the environment names a Linux subsystem.
    pub wsl_environment: bool,
    /// macOS: what `system_profiler SPHardwareDataType` printed.
    pub system_profiler: Option<String>,
}

/// Whether the text `needle` occurs in the output `output`; in no output
/// nothing occurs.
pub open spec fn mentions(output: Option<String>, needle: Seq<char>) -> bool {
    match output {
        Some(text) => occurs_in(encode_utf8(needle), encode_utf8(text@)),
        None => false,
    }
}

/// Whether `needle` occurs in `hay`.
pub fn contains_text(hay: &str, needle: &str) -> (found: bool)
    ensures
        found <==> occurs_in(encode_utf8(needle@), encode_utf8(hay@)),
{
    contains_bytes(hay.as_bytes(), needle.as_bytes())
}

/// Whether the output of a probe mentions `needle`.
fn output_mentions(output: &Option<String>, needle: &str) -> (found: bool)
    ensures
        found == mentions(*output, needle@),
{
    match output {
        Some(text) => contains_text(text.as_str(), needle),
        None => false,
    }
}

/// What the Linux probes say.
pub open spec fn linux_virtualization(probes: VirtualizationProbes) -> VirtualizationView {
    if probes.systemd_detect_virt is Some && probes.systemd_detect_virt.unwrap()@ != "none"@ {
        VirtualizationView::Virtual(probes.systemd_detect_virt.unwrap()@)
    } else if mentions(probes.dmidecode, "VMware"@) || mentions(probes.dmidecode, "Virtual"@) {
        VirtualizationView::Virtual("VMware"@)
    } else if probes.container_environment {
        VirtualizationView::Virtual("Container/Kubernetes"@)
    } else {
        VirtualizationView::Physical
    }
}

/// What the Windows probes say.
pub open spec fn windows_virtualization(probes: VirtualizationProbes) -> VirtualizationView {
    if mentions(probes.computer_model, "VMware"@) {
        VirtualizationView::Virtual("VMware"@)
    } else if mentions(probes.computer_model, "VirtualBox"@) {
        VirtualizationView::Virtual("VirtualBox"@)
    } else if mentions(probes.system_info, "Hyper-V"@) {
        VirtualizationView::Virtual("Hyper-V"@)
    } else if probes.wsl_environment {
        VirtualizationView::Virtual("WSL"@)
    } else {
        VirtualizationView::Physical
    }
}

/// What the macOS probe says; without its output there is no answer.
pub open spec fn macos_virtualization(probes: VirtualizationProbes) -> Option<VirtualizationView> {
    if probes.system_profiler is None {
        None
    } else if mentions(probes.system_profiler, "VMware"@) {
        Some(VirtualizationView::Virtual("VMware"@))
    } else if mentions(probes.system_profiler, "Parallels"@) {
        Some(VirtualizationView::Virtual("Parallels"@))
    } else {
        Some(VirtualizationView::Physical)
    }
}

/// What the probes of the operating system `os` say.
pub open spec fn virtualization(os: OperatingSystem, probes: VirtualizationProbes) -> Option<
    VirtualizationView,
> {
    match os {
        OperatingSystem::Windows => Some(windows_virtualization(probes)),
        OperatingSystem::MacOS => macos_virtualization(probes),
        OperatingSystem::Linux => Some(linux_virtualization(probes)),
        OperatingSystem::Unknown => Some(VirtualizationView::Physical),
    }
}

/// Whether `outcome` reports `expected`, with a failed detection for no
/// answer.
pub open spec fn reports(
    outcome: Result<VirtualizationType, HardwareError>,
    expected: Option<VirtualizationView>,
) -> bool {
    match outcome {
        Ok(kind) => expected == Some(kind@),
        Err(e) => expected is None && e == HardwareError::VirtualizationDetectionError,
    }
}

/// The operations a second that a benchmark shows: the operations by the
/// whole seconds it ran, or the operations themselves where it ran less
/// than a second.
pub open spec fn ops_per_second(operations: u64, elapsed_secs: u64) -> u64 {
    if elapsed_secs > 0 {
        operations / elapsed_secs
    } else {
        operations
    }
}

/// Number of rounds in one batch of the benchmark.
pub const BATCH_ROUNDS: u64 = 1000;

/// Number of operations in one batch of the benchmark: three a round.
pub const BATCH_OPERATIONS: u64 = 3000;

/// One round of the benchmark: an addition, a multiplication and a
/// subtraction, each wrapping.
pub open spec fn round(accumulator: u64, i: u64) -> u64 {
    accumulator.wrapping_add(i).wrapping_mul(1337).wrapping_sub((i * 42) as u64)
}

/// The accumulator after the first `rounds` rounds of a batch.
pub open spec fn worked(accumulator: u64, rounds: nat) -> u64
    decreases rounds,
{
    if rounds == 0 {
        accumulator
    } else {
        round(worked(accumulator, (rounds - 1) as nat), (rounds - 1) as u64)
    }
}

/// Checks that a machine is fit to run a validator.
#[derive(Debug, Clone)]
pub struct HardwareVerifier {
    min_ops_required: u64,
    test_duration_secs: u64,
    baseline_ops: u64,
}

impl HardwareVerifier {
    /// The least operations a second that a validator needs.
    pub closed spec fn spec_min_ops_required(&self) -> u64 {
        self.min_ops_required
    }

    /// The seconds that the benchmark runs.
    pub closed spec fn spec_test_duration_secs(&self) -> u64 {
        self.test_duration_secs
    }

    /// The operations a second that earn the full score.
    pub closed spec fn spec_baseline_ops(&self) -> u64 {
        self.baseline_ops
    }

    /// The operating system that the platform name `name` stands for.
    pub fn detect_os(name: &str) -> (os: OperatingSystem)
        ensures
            os == if name@ == "windows"@ {
                OperatingSystem::Windows
            } else if name@ == "macos"@ {
                OperatingSystem::MacOS
            } else if name@ == "linux"@ {
                OperatingSystem::Linux
            } else {
                OperatingSystem::Unknown
            },
    {
        let name = name.to_owned();
        if name == "windows".to_owned() {
            OperatingSystem::Windows
        } else if name == "macos".to_owned() {
            OperatingSystem::MacOS
        } else if name == "linux".to_owned() {
            OperatingSystem::Linux
        } else {
            OperatingSystem::Unknown
        }
    }

    /// What the probes of the operating system `os` say. A machine with an
    /// unknown system counts as physical.
    pub fn detect_virtualization(os: OperatingSystem, probes: &VirtualizationProbes) -> (outcome:
        Result<VirtualizationType, HardwareError>)
        ensures
            reports(outcome, virtualization(os, *probes)),
    {
        match os {
            OperatingSystem::Windows => HardwareVerifier::detect_windows_virtualization(probes),
            OperatingSystem::MacOS => HardwareVerifier::detect_macos_virtualization(probes),
            OperatingSystem::Linux => HardwareVerifier::detect_linux_virtualization(probes),
            OperatingSystem::Unknown => Ok(VirtualizationType::Physical),
        }
    }

    /// What the Windows probes say: the computer model, then the system
    /// information, then the environment.
    pub fn detect_windows_virtualization(probes: &VirtualizationProbes) -> (outcome: Result<
        VirtualizationType,
        HardwareError,
    >)
        ensures
            reports(outcome, Some(windows_virtualization(*probes))),
    {
        if output_mentions(&probes.computer_model, "VMware") {
            return Ok(VirtualizationType::Virtual("VMware".to_owned()));
        }
        if output_mentions(&probes.computer_model, "VirtualBox") {
            return Ok(VirtualizationType::Virtual("VirtualBox".to_owned()));
        }
        if output_mentions(&probes.system_info, "Hyper-V") {
            return Ok(VirtualizationType::Virtual("Hyper-V".to_owned()));
        }
        if probes.wsl_environment {
            return Ok(VirtualizationType::Virtual("WSL".to_owned()));
        }
        Ok(VirtualizationType::Physical)
    }

    /// What the macOS probe says. Without its output the detection fails.
    pub fn detect_macos_virtualization(probes: &VirtualizationProbes) -> (outcome: Result<
        VirtualizationType,
        HardwareError,
    >)
        ensures
            reports(outcome, macos_virtualization(*probes)),
    {
        if probes.system_profiler.is_none() {
            return Err(HardwareError::VirtualizationDetectionError);
        }
        if output_mentions(&probes.system_profiler, "VMware") {
            return Ok(VirtualizationType::Virtual("VMware".to_owned()));
        }
        if output_mentions(&probes.system_profiler, "Parallels") {
            return Ok(VirtualizationType::Virtual("Parallels".to_owned()));
        }
        Ok(VirtualizationType::Physical)
    }

    /// What the Linux probes say: the service manager, then the firmware
    /// tables, then the environment.
    pub fn detect_linux_virtualization(probes: &VirtualizationProbes) -> (outcome: Result<
        VirtualizationType,
        HardwareError,
    >)
        ensures
            reports(outcome, Some(linux_virtualization(*probes))),
    {
        match &probes.systemd_detect_virt {
            Some(kind) => {
                if !(*kind == "none".to_owned()) {
                    return Ok(VirtualizationType::Virtual(kind.clone()));
                }
            },
            None => {},
        }
        if output_mentions(&probes.dmidecode, "VMware") || output_mentions(
            &probes.dmidecode,
            "Virtual",
        ) {
            return Ok(VirtualizationType::Virtual("VMware".to_owned()));
        }
        if probes.container_environment {
            return Ok(VirtualizationType::Virtual("Container/Kubernetes".to_owned()));
        }
        Ok(VirtualizationType::Physical)
    }

    /// A verifier that asks for a million operations a second, measured
    /// over five seconds against a baseline of two million.
    pub fn new() -> (verifier: HardwareVerifier)
        ensures
            verifier.spec_min_ops_required() == 1_000_000,
            verifier.spec_test_duration_secs() == 5,
            verifier.spec_baseline_ops() == 2_000_000,
    {
        HardwareVerifier { min_ops_required: 1_000_000, test_duration_secs: 5, baseline_ops: 2_000_000 }
    }

    /// The least operations a second that a validator needs.
    #[verifier::when_used_as_spec(spec_min_ops_required)]
    pub fn min_ops_required(&self) -> (ops: u64)
        ensures
            ops == self.spec_min_ops_required(),
    {
        self.min_ops_required
    }

    /// The seconds that the benchmark runs.
    #[verifier::when_used_as_spec(spec_test_duration_secs)]
    pub fn test_duration_secs(&self) -> (secs: u64)
        ensures
            secs == self.spec_test_duration_secs(),
    {
        self.test_duration_secs
    }

    /// The operations a second that earn the full score.
    #[verifier::when_used_as_spec(spec_baseline_ops)]
    pub fn baseline_ops(&self) -> (ops: u64)
        ensures
            ops == self.spec_baseline_ops(),
    {
        self.baseline_ops
    }

    /// Runs one batch of the benchmark on `accumulator`.
    pub fn work_batch(accumulator: u64) -> (result: u64)
        ensures
            result == worked(accumulator, BATCH_ROUNDS as nat),
    {
        let mut result = accumulator;
        let mut i: u64 = 0;
        while i < 1000
            invariant
                i <= 1000,
                result == worked(accumulator, i as nat),
            decreases 1000 - i,
        {
            result = result.wrapping_add(i);
            result = result.wrapping_mul(1337);
            result = result.wrapping_sub(i * 42);
            i += 1;
        }
        result
    }

    /// Whether the benchmark may stop before its time is up: after whole
    /// batches, once more operations were made than a validator needs in
    /// a second.
    pub fn may_stop_early(&self, operations: u64) -> (stop: bool)
        ensures
            stop == (operations % BATCH_OPERATIONS == 0 && operations
                > self.min_ops_required()),
    {
        operations % 3000 == 0 && operations > self.min_ops_required
    }

    /// Judges a benchmark of `operations` operations in `elapsed_secs`
    /// whole seconds: the operations a second, where they are enough.
    pub fn verify(&self, operations: u64, elapsed_secs: u64) -> (outcome: Result<u64, HardwareError>)
        ensures
            outcome == if ops_per_second(operations, elapsed_secs) >= self.min_ops_required() {
                Ok::<u64, HardwareError>(ops_per_second(operations, elapsed_secs))
            } else {
                Err::<u64, HardwareError>(HardwareError::InsufficientPerformance)
            },
    {
        let rate = if elapsed_secs > 0 {
            operations / elapsed_secs
        } else {
            operations
        };
        if rate >= self.min_ops_required {
            Ok(rate)
        } else {
            Err(HardwareError::InsufficientPerformance)
        }
    }
}

} // verus!
