use vstd::prelude::*;

verus! {

/// Undefined
pub const UNDEFINED: u16 = 0x5000;
/// Battery level
pub const BATTERY_LEVEL: u16 = 0x5001;
/// Functional mode
pub const FUNCTIONAL_MODE: u16 = 0x5002;
/// Image size
pub const IMAGE_SIZE: u16 = 0x5003;
/// Compression setting
pub const COMPRESSION_SETTING: u16 = 0x5004;
/// White balance
pub const WHITE_BALANCE: u16 = 0x5005;
/// RGB gain
pub const RGB_GAIN: u16 = 0x5006;
/// F-number
pub const F_NUMBER: u16 = 0x5007;
/// Focal length
pub const FOCAL_LENGTH: u16 = 0x5008;
/// Focus distance
pub const FOCUS_DISTANCE: u16 = 0x5009;
/// Focus mode
pub const FOCUS_MODE: u16 = 0x500A;
/// Exposure metering mode
pub const EXPOSURE_METERING_MODE: u16 = 0x500B;
/// Flash mode
pub const FLASH_MODE: u16 = 0x500C;
/// Exposure time
pub const EXPOSURE_TIME: u16 = 0x500D;
/// Exposure program mode
pub const EXPOSURE_PROGRAM_MODE: u16 = 0x500E;
/// Exposure index (ISO)
pub const EXPOSURE_INDEX: u16 = 0x500F;
/// Exposure bias compensation
pub const EXPOSURE_BIAS_COMPENSATION: u16 = 0x5010;
/// Date time
pub const DATE_TIME: u16 = 0x5011;
/// Capture delay
pub const CAPTURE_DELAY: u16 = 0x5012;
/// Still capture mode
pub const STILL_CAPTURE_MODE: u16 = 0x5013;
/// Contrast
pub const CONTRAST: u16 = 0x5014;
/// Sharpness
pub const SHARPNESS: u16 = 0x5015;
/// Digital zoom
pub const DIGITAL_ZOOM: u16 = 0x5016;
/// Effect mode
pub const EFFECT_MODE: u16 = 0x5017;
/// Burst number
pub const BURST_NUMBER: u16 = 0x5018;
/// Burst interval
pub const BURST_INTERVAL: u16 = 0x5019;
/// Timelapse number
pub const TIMELAPSE_NUMBER: u16 = 0x501A;
/// Timelapse interval
pub const TIMELAPSE_INTERVAL: u16 = 0x501B;
/// Focus metering mode
pub const FOCUS_METERING_MODE: u16 = 0x501C;
/// Upload URL
pub const UPLOAD_URL: u16 = 0x501D;
/// Artist
pub const ARTIST: u16 = 0x501E;
/// Copyright info
pub const COPYRIGHT_INFO: u16 = 0x501F;

} // verus!
