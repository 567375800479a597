//! The hardware of each supported board profile.
use vstd::prelude::*;
use vstd::string::*;

verus! {

/// Where a board's hardware is: the serial line, the camera, the GPIO chip, the
/// run indicator pin and the colour and QR signal pins.
#[derive(Debug, Clone)]
pub struct HardwareProfile {
    pub serial: String,
    pub camera: String,
    pub gpio_chip: u8,
    pub run_pin: u32,
    pub color_pin: u32,
    pub qr_pin: u32,
}

/// Why a profile was refused.
#[derive(Debug, Clone)]
pub struct ProfileError {
    pub message: String,
}

/// The hardware of the supported profiles, as text and numbers.
pub open spec fn profile_spec(profile: Seq<char>) -> Option<(Seq<char>, Seq<char>, u8, u32, u32, u32)> {
    if profile == "orangepi"@ {
        Some(("/dev/ttyAMA1"@, "/dev/video0"@, 7u8, 3u32, 4u32, 5u32))
    } else if profile == "raspberrypi"@ {
        Some(("/dev/serial0"@, "/dev/video2"@, 0u8, 27u32, 17u32, 22u32))
    } else {
        None
    }
}

/// The hardware of `profile`: `orangepi` or `raspberrypi`; any other profile is refused.
pub fn hardware_profile(profile: &str) -> (r: Result<HardwareProfile, ProfileError>)
    ensures
        match profile_spec(profile@) {
            Some((serial, camera, chip, run, color, qr)) => r matches Ok(h) && h.serial@ == serial
                && h.camera@ == camera && h.gpio_chip == chip && h.run_pin == run && h.color_pin == color
                && h.qr_pin == qr,
            None => r matches Err(e) && e.message@ == "unsupported config profile "@ + profile@
                + "; expected orangepi or raspberrypi"@,
        },
{
    let key = String::from_str(profile);
    if key == String::from_str("orangepi") {
        Ok(HardwareProfile {
            serial: String::from_str("/dev/ttyAMA1"),
            camera: String::from_str("/dev/video0"),
            gpio_chip: 7,
            run_pin: 3,
            color_pin: 4,
            qr_pin: 5,
        })
    } else if key == String::from_str("raspberrypi") {
        Ok(HardwareProfile {
            serial: String::from_str("/dev/serial0"),
            camera: String::from_str("/dev/video2"),
            gpio_chip: 0,
            run_pin: 27,
            color_pin: 17,
            qr_pin: 22,
        })
    } else {
        let mut m = String::from_str("unsupported config profile ");
        m.append(profile);
        m.append("; expected orangepi or raspberrypi");
        Err(ProfileError { message: m })
    }
}

/// Exactly the two supported profiles have hardware, and each gives its run
/// indicator, colour signal and QR signal three different pins.
pub proof fn lemma_profile_pins_distinct(profile: Seq<char>)
    ensures
        profile_spec(profile) is Some <==> (profile == "orangepi"@ || profile == "raspberrypi"@),
        profile_spec(profile) matches Some((_s, _c, _chip, run, color, qr)) ==> run != color && color != qr && run != qr,
{
}

} // verus!
