//! The status banner and button labels of the rendering demos.
use vstd::prelude::*;

verus! {

/// The banner text for a WebGL renderer: still initializing, active, or,
/// when initialization ended without an active renderer, unsupported (no
/// error code) or failed (an error code).
pub fn webgl_status_text(loaded: bool, active: bool, init_error_code: &str) -> (r: &'static str)
    ensures
        r@ == if !loaded {
            "Initializing..."@
        } else if active {
            "WebGL Active"@
        } else if init_error_code@.len() == 0 {
            "WebGL not supported"@
        } else {
            "WebGL init failed"@
        },
{
    if !loaded {
        return "Initializing...";
    }
    if active {
        return "WebGL Active";
    }
    if init_error_code.is_empty() {
        "WebGL not supported"
    } else {
        "WebGL init failed"
    }
}

/// The label of the pause button: "Pause" while the demo runs, "Resume"
/// while it is paused.
pub fn pause_label(running: bool) -> (r: &'static str)
    ensures
        r@ == if running {
            "Pause"@
        } else {
            "Resume"@
        },
{
    if running {
        "Pause"
    } else {
        "Resume"
    }
}

/// The label of the auto-rotate button.
pub fn auto_rotate_label(auto_rotate: bool) -> (r: &'static str)
    ensures
        r@ == if auto_rotate {
            "Auto: On"@
        } else {
            "Auto: Off"@
        },
{
    if auto_rotate {
        "Auto: On"
    } else {
        "Auto: Off"
    }
}

} // verus!
