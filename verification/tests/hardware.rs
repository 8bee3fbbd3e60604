use romer_chain::node::hardware::{
    contains_text, HardwareError, HardwareVerifier, OperatingSystem, VirtualizationProbes,
    VirtualizationType,
};

fn no_probes() -> VirtualizationProbes {
    VirtualizationProbes {
        systemd_detect_virt: None,
        dmidecode: None,
        container_environment: false,
        computer_model: None,
        system_info: None,
        wsl_environment: false,
        system_profiler: None,
    }
}

#[test]
fn test_os_detection() {
    let os = HardwareVerifier::detect_os("linux");
    assert!(matches!(
        os,
        OperatingSystem::Windows
            | OperatingSystem::MacOS
            | OperatingSystem::Linux
            | OperatingSystem::Unknown
    ));
}

#[test]
fn test_virtualization_detection() {
    let os = HardwareVerifier::detect_os("linux");
    let mut probes = no_probes();
    probes.system_profiler = Some(String::new());
    let result = HardwareVerifier::detect_virtualization(os, &probes);
    assert!(result.is_ok());
}

#[test]
fn test_hardware_verification() {
    let verifier = HardwareVerifier::new();
    let result = verifier.verify(3_000_000, 1);
    assert!(result.is_ok());
}

#[test]
fn platform_names_are_told_apart() {
    assert_eq!(HardwareVerifier::detect_os("windows"), OperatingSystem::Windows);
    assert_eq!(HardwareVerifier::detect_os("macos"), OperatingSystem::MacOS);
    assert_eq!(HardwareVerifier::detect_os("linux"), OperatingSystem::Linux);
    assert_eq!(HardwareVerifier::detect_os("freebsd"), OperatingSystem::Unknown);
    assert_eq!(HardwareVerifier::detect_os("Linux"), OperatingSystem::Unknown);
    assert_eq!(HardwareVerifier::detect_os(""), OperatingSystem::Unknown);
}

#[test]
fn text_is_found_anywhere_in_the_output() {
    assert!(contains_text("Model: VMware Virtual Platform", "VMware"));
    assert!(contains_text("VMware", "VMware"));
    assert!(contains_text("xxVMware", "VMware"));
    assert!(contains_text("anything", ""));
    assert!(contains_text("", ""));
    assert!(!contains_text("VMwar", "VMware"));
    assert!(!contains_text("vmware", "VMware"));
    assert!(!contains_text("", "VMware"));
    assert!(contains_text("aab", "ab"));
    assert!(contains_text("gr\u{fc}n \u{1f1e6}\u{1f1fa} ok", "\u{1f1e6}\u{1f1fa}"));
}

#[test]
fn linux_probes_are_read_in_order() {
    let mut probes = no_probes();
    assert_eq!(
        HardwareVerifier::detect_linux_virtualization(&probes),
        Ok(VirtualizationType::Physical)
    );
    probes.container_environment = true;
    assert_eq!(
        HardwareVerifier::detect_linux_virtualization(&probes),
        Ok(VirtualizationType::Virtual("Container/Kubernetes".to_string()))
    );
    probes.dmidecode = Some("Product Name: Virtual Machine".to_string());
    assert_eq!(
        HardwareVerifier::detect_linux_virtualization(&probes),
        Ok(VirtualizationType::Virtual("VMware".to_string()))
    );
    probes.systemd_detect_virt = Some("none".to_string());
    assert_eq!(
        HardwareVerifier::detect_linux_virtualization(&probes),
        Ok(VirtualizationType::Virtual("VMware".to_string()))
    );
    probes.systemd_detect_virt = Some("kvm".to_string());
    assert_eq!(
        HardwareVerifier::detect_linux_virtualization(&probes),
        Ok(VirtualizationType::Virtual("kvm".to_string()))
    );
}

#[test]
fn windows_probes_are_read_in_order() {
    let mut probes = no_probes();
    assert_eq!(
        HardwareVerifier::detect_windows_virtualization(&probes),
        Ok(VirtualizationType::Physical)
    );
    probes.wsl_environment = true;
    assert_eq!(
        HardwareVerifier::detect_windows_virtualization(&probes),
        Ok(VirtualizationType::Virtual("WSL".to_string()))
    );
    probes.system_info = Some("Hyper-V Requirements: yes".to_string());
    assert_eq!(
        HardwareVerifier::detect_windows_virtualization(&probes),
        Ok(VirtualizationType::Virtual("Hyper-V".to_string()))
    );
    probes.computer_model = Some("Model\n-----\nVirtualBox".to_string());
    assert_eq!(
        HardwareVerifier::detect_windows_virtualization(&probes),
        Ok(VirtualizationType::Virtual("VirtualBox".to_string()))
    );
    probes.computer_model = Some("VirtualBox on VMware".to_string());
    assert_eq!(
        HardwareVerifier::detect_windows_virtualization(&probes),
        Ok(VirtualizationType::Virtual("VMware".to_string()))
    );
}

#[test]
fn macos_needs_its_probe() {
    let mut probes = no_probes();
    assert_eq!(
        HardwareVerifier::detect_macos_virtualization(&probes),
        Err(HardwareError::VirtualizationDetectionError)
    );
    probes.system_profiler = Some("Model Name: MacBook Pro".to_string());
    assert_eq!(
        HardwareVerifier::detect_macos_virtualization(&probes),
        Ok(VirtualizationType::Physical)
    );
    probes.system_profiler = Some("Parallels Virtual Platform".to_string());
    assert_eq!(
        HardwareVerifier::detect_macos_virtualization(&probes),
        Ok(VirtualizationType::Virtual("Parallels".to_string()))
    );
    probes.system_profiler = Some("Parallels, VMware".to_string());
    assert_eq!(
        HardwareVerifier::detect_macos_virtualization(&probes),
        Ok(VirtualizationType::Virtual("VMware".to_string()))
    );
}

#[test]
fn detection_goes_by_operating_system() {
    let mut probes = no_probes();
    probes.systemd_detect_virt = Some("kvm".to_string());
    probes.wsl_environment = true;
    assert_eq!(
        HardwareVerifier::detect_virtualization(OperatingSystem::Linux, &probes),
        Ok(VirtualizationType::Virtual("kvm".to_string()))
    );
    assert_eq!(
        HardwareVerifier::detect_virtualization(OperatingSystem::Windows, &probes),
        Ok(VirtualizationType::Virtual("WSL".to_string()))
    );
    assert_eq!(
        HardwareVerifier::detect_virtualization(OperatingSystem::MacOS, &probes),
        Err(HardwareError::VirtualizationDetectionError)
    );
    assert_eq!(
        HardwareVerifier::detect_virtualization(OperatingSystem::Unknown, &probes),
        Ok(VirtualizationType::Physical)
    );
}

#[test]
fn benchmark_is_judged_by_operations_a_second() {
    let verifier = HardwareVerifier::new();
    assert_eq!(verifier.min_ops_required(), 1_000_000);
    assert_eq!(verifier.test_duration_secs(), 5);
    assert_eq!(verifier.baseline_ops(), 2_000_000);
    assert_eq!(verifier.verify(5_000_000, 5), Ok(1_000_000));
    assert_eq!(verifier.verify(4_999_999, 5), Err(HardwareError::InsufficientPerformance));
    assert_eq!(verifier.verify(1_000_000, 0), Ok(1_000_000));
    assert_eq!(verifier.verify(999_999, 0), Err(HardwareError::InsufficientPerformance));
    assert_eq!(verifier.verify(7_000_001, 2), Ok(3_500_000));
}

#[test]
fn benchmark_may_stop_after_whole_batches() {
    let verifier = HardwareVerifier::new();
    assert!(!verifier.may_stop_early(0));
    assert!(!verifier.may_stop_early(999_000));
    assert!(!verifier.may_stop_early(1_000_000));
    assert!(!verifier.may_stop_early(1_001_000));
    assert!(verifier.may_stop_early(1_002_000));
    assert!(!verifier.may_stop_early(1_002_001));
    assert!(verifier.may_stop_early(3_000_000));
}

#[test]
fn a_batch_is_a_thousand_rounds() {
    let mut expected = 5u64;
    for i in 0..1000u64 {
        expected = expected.wrapping_add(i);
        expected = expected.wrapping_mul(1337);
        expected = expected.wrapping_sub(i * 42);
    }
    assert_eq!(HardwareVerifier::work_batch(5), expected);
    assert_ne!(HardwareVerifier::work_batch(5), HardwareVerifier::work_batch(6));
}
