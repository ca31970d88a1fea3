use render_core::device::{
    graphics_family, select_physical_device, transfer_family, DeviceCandidate, DeviceKind,
    QueueFamilyCaps,
};

fn fam(graphics: bool, transfer: bool, surface_support: bool) -> QueueFamilyCaps {
    QueueFamilyCaps { graphics, transfer, surface_support }
}

fn dev(kind: DeviceKind, families: Vec<QueueFamilyCaps>) -> DeviceCandidate {
    DeviceCandidate { kind, supports_extensions: true, supports_features: true, queue_families: families }
}

fn good() -> Vec<QueueFamilyCaps> {
    vec![fam(true, true, true), fam(false, true, false)]
}

#[test]
fn discrete_gpu_preferred() {
    let devices = vec![
        dev(DeviceKind::Cpu, good()),
        dev(DeviceKind::IntegratedGpu, good()),
        dev(DeviceKind::DiscreteGpu, good()),
        dev(DeviceKind::DiscreteGpu, good()),
    ];
    assert_eq!(select_physical_device(&devices), Some((2, 0, 1)));
}

#[test]
fn ineligible_devices_skipped() {
    let mut no_ext = dev(DeviceKind::DiscreteGpu, good());
    no_ext.supports_extensions = false;
    let mut no_feat = dev(DeviceKind::DiscreteGpu, good());
    no_feat.supports_features = false;
    let no_present = dev(DeviceKind::DiscreteGpu, vec![fam(true, true, false), fam(false, true, true)]);
    let single = dev(DeviceKind::DiscreteGpu, vec![fam(true, true, true)]);
    let other = dev(DeviceKind::Other, vec![fam(false, true, false), fam(true, false, true)]);
    let devices = vec![no_ext, no_feat, no_present, single, other];
    assert_eq!(select_physical_device(&devices), Some((4, 1, 0)));
    assert_eq!(select_physical_device(&devices[..4].to_vec()), None);
    assert_eq!(select_physical_device(&vec![]), None);
}

#[test]
fn queue_families_found_first() {
    let fams = vec![fam(false, true, true), fam(true, false, true), fam(true, true, true)];
    assert_eq!(graphics_family(&fams), Some(1));
    assert_eq!(transfer_family(&fams, 1), Some(0));
    assert_eq!(transfer_family(&fams, 0), Some(2));
    assert_eq!(graphics_family(&vec![fam(true, true, false)]), None);
    assert_eq!(transfer_family(&vec![fam(true, true, true)], 0), None);
}
