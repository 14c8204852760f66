use seance::packaging::{BuildTarget, BuiltBinary, PackagingRoutine, TargetDistributionFamily};
use seance::{PrintDevice, USBPort};

#[test]
fn default_device_is_the_first_printer_port() {
    assert_eq!(PrintDevice::default_path(), PrintDevice::Path { path: "/dev/usb/lp0".to_string() });
}

#[test]
fn first_usb_port_is_chosen() {
    let ports = [
        USBPort { vendor_id: 0x04b8, product_id: 0x0005 },
        USBPort { vendor_id: 0x03f0, product_id: 0x1234 },
    ];
    assert_eq!(PrintDevice::first_usb_port(&ports), PrintDevice::USBPort { port: Some(ports[0]) });
    assert_eq!(PrintDevice::first_usb_port(&[]), PrintDevice::USBPort { port: None });
}

#[test]
fn families_build_for_their_system() {
    assert_eq!(TargetDistributionFamily::ArchX86_64.build_target(), BuildTarget::LinuxX86_64);
    assert_eq!(TargetDistributionFamily::DebianArm64.build_target(), BuildTarget::LinuxAarch64);
    assert_eq!(TargetDistributionFamily::DebianArmv6l.build_target(), BuildTarget::LinuxArmv6l);
    assert_eq!(TargetDistributionFamily::DebianX86_64.build_target(), BuildTarget::LinuxX86_64);
    assert_eq!(TargetDistributionFamily::WindowsX86_64.build_target(), BuildTarget::WindowsX86_64);
    assert_eq!(BuildTarget::LinuxAarch64.arch_str(), "aarch64-linux");
    assert_eq!(BuildTarget::LinuxArmv6l.arch_str(), "armv6l-linux");
    assert_eq!(BuildTarget::LinuxX86_64.arch_str(), "x86_64-linux");
    assert_eq!(BuildTarget::WindowsX86_64.arch_str(), "x86_64-windows");
}

#[test]
fn binaries_are_named_by_system() {
    assert_eq!(BuiltBinary::Planchette.name_as_built(BuildTarget::LinuxArmv6l), "planchette");
    assert_eq!(BuiltBinary::Planchette.name_as_built(BuildTarget::WindowsX86_64), "planchette.exe");
    assert_eq!(BuiltBinary::SeanceApp.name_as_built(BuildTarget::LinuxX86_64), "seance-app");
    assert_eq!(BuiltBinary::SeanceApp.name_as_built(BuildTarget::WindowsX86_64), "seance-app.exe");
}

#[test]
fn only_some_packages_are_supported() {
    let supported = [
        (TargetDistributionFamily::ArchX86_64, BuiltBinary::SeanceApp, PackagingRoutine::SeanceArchX86_64),
        (TargetDistributionFamily::DebianArm64, BuiltBinary::Planchette, PackagingRoutine::PlanchetteDebianAarch64),
        (TargetDistributionFamily::DebianArmv6l, BuiltBinary::Planchette, PackagingRoutine::PlanchetteDebianArmv6l),
        (TargetDistributionFamily::DebianX86_64, BuiltBinary::Planchette, PackagingRoutine::PlanchetteDebianX86_64),
        (TargetDistributionFamily::DebianX86_64, BuiltBinary::SeanceApp, PackagingRoutine::SeanceDebianX86_64),
        (TargetDistributionFamily::WindowsX86_64, BuiltBinary::SeanceApp, PackagingRoutine::SeanceWindowsX86_64),
    ];
    for (family, binary, routine) in supported {
        assert_eq!(family.package(binary), Some(routine));
    }
    assert_eq!(TargetDistributionFamily::ArchX86_64.package(BuiltBinary::Planchette), None);
    assert_eq!(TargetDistributionFamily::DebianArm64.package(BuiltBinary::SeanceApp), None);
    assert_eq!(TargetDistributionFamily::DebianArmv6l.package(BuiltBinary::SeanceApp), None);
    assert_eq!(TargetDistributionFamily::WindowsX86_64.package(BuiltBinary::Planchette), None);
}

#[test]
fn names_as_shown() {
    assert_eq!(TargetDistributionFamily::DebianArmv6l.display_name(), "Debian (armhf)");
    assert_eq!(TargetDistributionFamily::ArchX86_64.display_name(), "Arch (x86_64)");
    assert_eq!(BuildTarget::LinuxArmv6l.display_name(), "Linux (armhf)");
    assert_eq!(BuiltBinary::SeanceApp.display_name(), "Seance");
    assert_eq!(BuiltBinary::Planchette.display_name(), "Planchette");
}
