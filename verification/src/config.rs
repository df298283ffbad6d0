//! Default values for the monitor's configuration: the broker address, the
//! camera, the lifecycle durations (in seconds) and the encoder's luminance
//! threshold. A collaborator that reads a configuration file fills absent
//! entries from these.

use vstd::prelude::*;
use vstd::string::StringExecFns;

verus! {

/// The default broker host name.
pub fn mqtt_host_default() -> (r: String)
    ensures
        r@ == "localhost"@,
{
    String::from_str("localhost")
}

/// The default broker port.
pub fn mqtt_port_default() -> (r: u16)
    ensures
        r == 1883,
{
    1883
}

/// The default length of the streaming window, in seconds.
pub fn stream_duration_default() -> (r: u64)
    ensures
        r == 30,
{
    30
}

/// The default length of the cooldown window, in seconds.
pub fn pause_duration_default() -> (r: u64)
    ensures
        r == 90,
{
    90
}

/// The default camera device index.
pub fn camera_index_default() -> (r: usize)
    ensures
        r == 0,
{
    0
}

/// The default camera frame rate.
pub fn camera_fps_default() -> (r: u32)
    ensures
        r == 30,
{
    30
}

/// The default luminance threshold of the bitmap encoder.
pub fn oled_threshold_default() -> (r: u8)
    ensures
        r == 30,
{
    30
}

} // verus!
