//! What is built and packaged for which system.

use vstd::prelude::*;

verus! {

/// A family of distributions that packages are made for.
#[derive(Debug, Clone, Copy, PartialEq, Eq, Structural)]
pub enum TargetDistributionFamily {
    /// Arch Linux on x86_64.
    ArchX86_64,
    /// Debian on 64-bit ARM.
    DebianArm64,
    /// Debian on ARMv6 with hardware floating point.
    DebianArmv6l,
    /// Debian on x86_64.
    DebianX86_64,
    /// Windows on x86_64.
    WindowsX86_64,
}

/// A system that binaries are built for.
#[derive(Debug, Clone, Copy, PartialEq, Eq, Hash, PartialOrd, Ord, Structural)]
pub enum BuildTarget {
    /// Linux on 64-bit ARM.
    LinuxAarch64,
    /// Linux on ARMv6.
    LinuxArmv6l,
    /// Linux on x86_64.
    LinuxX86_64,
    /// Windows on x86_64.
    WindowsX86_64,
}

/// A binary that is built.
#[derive(Debug, Clone, Copy, PartialEq, Eq, Structural)]
pub enum BuiltBinary {
    /// The server that writes jobs to the device.
    Planchette,
    /// The application with the user interface.
    SeanceApp,
}

/// How a binary is packaged for a family of distributions.
#[derive(Debug, Clone, Copy, PartialEq, Eq, Structural)]
pub enum PackagingRoutine {
    /// The application for Arch Linux on x86_64.
    SeanceArchX86_64,
    /// The server as a Debian package for 64-bit ARM.
    PlanchetteDebianAarch64,
    /// The server as a Debian package for ARMv6.
    PlanchetteDebianArmv6l,
    /// The server as a Debian package for x86_64.
    PlanchetteDebianX86_64,
    /// The application as a Debian package for x86_64.
    SeanceDebianX86_64,
    /// The application for Windows on x86_64.
    SeanceWindowsX86_64,
}

impl TargetDistributionFamily {
    /// The system that binaries for this family are built for.
    pub fn build_target(self) -> (target: BuildTarget)
        ensures
            target == match self {
                TargetDistributionFamily::ArchX86_64 => BuildTarget::LinuxX86_64,
                TargetDistributionFamily::DebianArm64 => BuildTarget::LinuxAarch64,
                TargetDistributionFamily::DebianArmv6l => BuildTarget::LinuxArmv6l,
                TargetDistributionFamily::DebianX86_64 => BuildTarget::LinuxX86_64,
                TargetDistributionFamily::WindowsX86_64 => BuildTarget::WindowsX86_64,
            },
    {
        match self {
            TargetDistributionFamily::ArchX86_64 => BuildTarget::LinuxX86_64,
            TargetDistributionFamily::DebianArm64 => BuildTarget::LinuxAarch64,
            TargetDistributionFamily::DebianArmv6l => BuildTarget::LinuxArmv6l,
            TargetDistributionFamily::DebianX86_64 => BuildTarget::LinuxX86_64,
            TargetDistributionFamily::WindowsX86_64 => BuildTarget::WindowsX86_64,
        }
    }

    /// How a binary is packaged for this family, or `None` where packaging
    /// that binary for this family is not supported: the server is packaged
    /// for Debian alone, the application for x86_64 alone.
    pub fn package(self, binary: BuiltBinary) -> (routine: Option<PackagingRoutine>)
        ensures
            routine == match (self, binary) {
                (TargetDistributionFamily::ArchX86_64, BuiltBinary::SeanceApp) => Some(
                    PackagingRoutine::SeanceArchX86_64,
                ),
                (TargetDistributionFamily::DebianArm64, BuiltBinary::Planchette) => Some(
                    PackagingRoutine::PlanchetteDebianAarch64,
                ),
                (TargetDistributionFamily::DebianArmv6l, BuiltBinary::Planchette) => Some(
                    PackagingRoutine::PlanchetteDebianArmv6l,
                ),
                (TargetDistributionFamily::DebianX86_64, BuiltBinary::Planchette) => Some(
                    PackagingRoutine::PlanchetteDebianX86_64,
                ),
                (TargetDistributionFamily::DebianX86_64, BuiltBinary::SeanceApp) => Some(
                    PackagingRoutine::SeanceDebianX86_64,
                ),
                (TargetDistributionFamily::WindowsX86_64, BuiltBinary::SeanceApp) => Some(
                    PackagingRoutine::SeanceWindowsX86_64,
                ),
                _ => None,
            },
    {
        match self {
            TargetDistributionFamily::ArchX86_64 => match binary {
                BuiltBinary::Planchette => None,
                BuiltBinary::SeanceApp => Some(PackagingRoutine::SeanceArchX86_64),
            },
            TargetDistributionFamily::DebianArm64 => match binary {
                BuiltBinary::Planchette => Some(PackagingRoutine::PlanchetteDebianAarch64),
                BuiltBinary::SeanceApp => None,
            },
            TargetDistributionFamily::DebianArmv6l => match binary {
                BuiltBinary::Planchette => Some(PackagingRoutine::PlanchetteDebianArmv6l),
                BuiltBinary::SeanceApp => None,
            },
            TargetDistributionFamily::DebianX86_64 => match binary {
                BuiltBinary::Planchette => Some(PackagingRoutine::PlanchetteDebianX86_64),
                BuiltBinary::SeanceApp => Some(PackagingRoutine::SeanceDebianX86_64),
            },
            TargetDistributionFamily::WindowsX86_64 => match binary {
                BuiltBinary::Planchette => None,
                BuiltBinary::SeanceApp => Some(PackagingRoutine::SeanceWindowsX86_64),
            },
        }
    }

    /// The name of this family as it is shown.
    pub fn display_name(self) -> (name: &'static str)
        ensures
            name@ == match self {
                TargetDistributionFamily::ArchX86_64 => "Arch (x86_64)"@,
                TargetDistributionFamily::DebianArm64 => "Debian (arm64)"@,
                TargetDistributionFamily::DebianArmv6l => "Debian (armhf)"@,
                TargetDistributionFamily::DebianX86_64 => "Debian (x86_64)"@,
                TargetDistributionFamily::WindowsX86_64 => "Windows (x86_64)"@,
            },
    {
        match self {
            TargetDistributionFamily::ArchX86_64 => "Arch (x86_64)",
            TargetDistributionFamily::DebianArm64 => "Debian (arm64)",
            TargetDistributionFamily::DebianArmv6l => "Debian (armhf)",
            TargetDistributionFamily::DebianX86_64 => "Debian (x86_64)",
            TargetDistributionFamily::WindowsX86_64 => "Windows (x86_64)",
        }
    }
}

impl BuildTarget {
    /// The name of this system in the names of build outputs.
    pub fn arch_str(self) -> (arch: &'static str)
        ensures
            arch@ == match self {
                BuildTarget::LinuxAarch64 => "aarch64-linux"@,
                BuildTarget::LinuxArmv6l => "armv6l-linux"@,
                BuildTarget::LinuxX86_64 => "x86_64-linux"@,
                BuildTarget::WindowsX86_64 => "x86_64-windows"@,
            },
    {
        match self {
            BuildTarget::LinuxAarch64 => "aarch64-linux",
            BuildTarget::LinuxArmv6l => "armv6l-linux",
            BuildTarget::LinuxX86_64 => "x86_64-linux",
            BuildTarget::WindowsX86_64 => "x86_64-windows",
        }
    }

    /// The name of this system as it is shown.
    pub fn display_name(self) -> (name: &'static str)
        ensures
            name@ == match self {
                BuildTarget::LinuxAarch64 => "Linux (aarch64)"@,
                BuildTarget::LinuxArmv6l => "Linux (armhf)"@,
                BuildTarget::LinuxX86_64 => "Linux (x86_64)"@,
                BuildTarget::WindowsX86_64 => "Windows (x86_64)"@,
            },
    {
        match self {
            BuildTarget::LinuxAarch64 => "Linux (aarch64)",
            BuildTarget::LinuxArmv6l => "Linux (armhf)",
            BuildTarget::LinuxX86_64 => "Linux (x86_64)",
            BuildTarget::WindowsX86_64 => "Windows (x86_64)",
        }
    }
}

impl BuiltBinary {
    /// The file name of this binary as it is built for a system.
    pub fn name_as_built(self, build_target: BuildTarget) -> (name: &'static str)
        ensures
            name@ == match (self, build_target) {
                (BuiltBinary::Planchette, BuildTarget::WindowsX86_64) => "planchette.exe"@,
                (BuiltBinary::Planchette, _) => "planchette"@,
                (BuiltBinary::SeanceApp, BuildTarget::WindowsX86_64) => "seance-app.exe"@,
                (BuiltBinary::SeanceApp, _) => "seance-app"@,
            },
    {
        match self {
            BuiltBinary::Planchette => match build_target {
                BuildTarget::LinuxAarch64 | BuildTarget::LinuxArmv6l | BuildTarget::LinuxX86_64 => {
                    "planchette"
                },
                BuildTarget::WindowsX86_64 => "planchette.exe",
            },
            BuiltBinary::SeanceApp => match build_target {
                BuildTarget::LinuxAarch64 | BuildTarget::LinuxArmv6l | BuildTarget::LinuxX86_64 => {
                    "seance-app"
                },
                BuildTarget::WindowsX86_64 => "seance-app.exe",
            },
        }
    }

    /// The name of this binary as it is shown.
    pub fn display_name(self) -> (name: &'static str)
        ensures
            name@ == match self {
                BuiltBinary::Planchette => "Planchette"@,
                BuiltBinary::SeanceApp => "Seance"@,
            },
    {
        match self {
            BuiltBinary::Planchette => "Planchette",
            BuiltBinary::SeanceApp => "Seance",
        }
    }
}

} // verus!
