//! Names and places that the daemon and its consumers agree on.

use vstd::prelude::*;

verus! {

/// The tag of log messages.
pub const TAG: &'static str = "utensil-bs";

/// The abstract socket at which the daemon listens.
pub const SOCKET: &'static str = "coreshift_batterystats";

/// The abstract name that a watching consumer gives its own end.
pub const SOCKET_WATCHER: &'static str = "coreshift_bs_consumer";

/// The battery level, in percent, as the kernel shows it.
pub const SYSFS_CAP: &'static str = "/sys/class/power_supply/battery/capacity";

/// The charge state as the kernel shows it.
pub const SYSFS_STATUS: &'static str = "/sys/class/power_supply/battery/status";

/// The system property that holds the charge state as a numeric code.
pub const STATUS_PROP: &'static str = "debug.tracing.battery_status";

/// The system property under which the daemon publishes the charge state.
pub const CHARGE_PROP: &'static str = "debug.tracing.charge_state";

/// Where the files of the daemon are.
pub const DATA_DIR: &'static str = "/data/local/tmp/Utensil";

/// The PID of the running daemon.
pub const PID_FILE: &'static str = "/data/local/tmp/Utensil/bs.pid";

/// Where the daemon logs to.
pub const LOG_FILE: &'static str = "/data/local/tmp/Utensil/bs.log";

/// The names and places that others rely on.
pub proof fn law_names_and_places()
    ensures
        TAG@ == "utensil-bs"@,
        SOCKET@ == "coreshift_batterystats"@,
        SOCKET_WATCHER@ == "coreshift_bs_consumer"@,
        SYSFS_CAP@ == "/sys/class/power_supply/battery/capacity"@,
        SYSFS_STATUS@ == "/sys/class/power_supply/battery/status"@,
        STATUS_PROP@ == "debug.tracing.battery_status"@,
        CHARGE_PROP@ == "debug.tracing.charge_state"@,
        DATA_DIR@ == "/data/local/tmp/Utensil"@,
        PID_FILE@ == "/data/local/tmp/Utensil/bs.pid"@,
        LOG_FILE@ == "/data/local/tmp/Utensil/bs.log"@,
{
}

} // verus!
