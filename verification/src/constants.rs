//! The installer's defaults and fixed names.
use vstd::prelude::*;

verus! {

/// Default container hostname; also the name of the ZNC package.
pub const DEFAULT_ZNC_NAME: &'static str = "znc";

/// Default storage for the container's root disk.
pub const DEFAULT_STORAGE: &'static str = "local-lvm";

/// Default storage for container templates.
pub const DEFAULT_TEMPLATE_STORAGE: &'static str = "local";

/// Default Proxmox bridge for the container's network.
pub const DEFAULT_BRIDGE: &'static str = "vmbr0";

/// Default container memory, in MB.
pub const DEFAULT_MEMORY_MB: u32 = 256;

/// Default container swap, in MB.
pub const DEFAULT_SWAP_MB: u32 = 256;

/// Default container root disk size, in GB.
pub const DEFAULT_DISK_GB: u32 = 2;

/// Default number of container CPU cores.
pub const DEFAULT_CORES: u32 = 1;

/// The system user ZNC runs as, and the default ZNC admin user.
pub const DEFAULT_ZNC_USER: &'static str = "znc";

/// Default IRC nick.
pub const DEFAULT_NICK: &'static str = "znc";

/// Default IRC server.
pub const DEFAULT_IRC_SERVER: &'static str = "irc.libera.chat";

/// Default IRC server port.
pub const DEFAULT_IRC_PORT: u16 = 6697;

/// Default network name used in the ZNC login string.
pub const DEFAULT_IRC_NETWORK: &'static str = "libera";

/// Address pinged to see whether the container's network is up; also the first
/// fallback nameserver.
pub const DEFAULT_PING_TARGET: &'static str = "1.1.1.1";

/// Second fallback nameserver.
pub const FALLBACK_NAMESERVER: &'static str = "8.8.8.8";

/// The Alpine package with ZNC's OpenRC service.
pub const ZNC_OPENRC_PACKAGE: &'static str = "znc-openrc";

/// The storage types that can hold container templates.
pub const TEMPLATE_STORAGE_KINDS: [&'static str; 6] = ["dir", "nfs", "cifs", "cephfs", "glusterfs", "zfs"];

/// The port ZNC listens on inside the container.
pub const DEFAULT_ZNC_LISTENER_PORT: u16 = 6501;

} // verus!
