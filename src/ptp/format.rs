use vstd::prelude::*;

verus! {

/// Undefined
pub const UNDEFINED: u16 = 0x3000;
/// Association (folder)
pub const ASSOCIATION: u16 = 0x3001;
/// Script
pub const SCRIPT: u16 = 0x3002;
/// Executable
pub const EXECUTABLE: u16 = 0x3003;
/// Text
pub const TEXT: u16 = 0x3004;
/// HTML
pub const HTML: u16 = 0x3005;
/// DPOF
pub const DPOF: u16 = 0x3006;
/// AIFF
pub const AIFF: u16 = 0x3007;
/// WAV
pub const WAV: u16 = 0x3008;
/// MP3
pub const MP3: u16 = 0x3009;
/// AVI
pub const AVI: u16 = 0x300A;
/// MPEG
pub const MPEG: u16 = 0x300B;
/// ASF
pub const ASF: u16 = 0x300C;
/// EXIF/JPEG
pub const EXIF_JPEG: u16 = 0x3801;
/// TIFF/EP
pub const TIFF_EP: u16 = 0x3802;
/// FlashPix
pub const FLASHPIX: u16 = 0x3803;
/// BMP
pub const BMP: u16 = 0x3804;
/// CIFF
pub const CIFF: u16 = 0x3805;
/// GIF
pub const GIF: u16 = 0x3807;
/// JFIF
pub const JFIF: u16 = 0x3808;
/// PCD
pub const PCD: u16 = 0x3809;
/// PICT
pub const PICT: u16 = 0x380A;
/// PNG
pub const PNG: u16 = 0x380B;
/// TIFF
pub const TIFF: u16 = 0x380D;
/// TIFF/IT
pub const TIFF_IT: u16 = 0x380E;
/// JP2
pub const JP2: u16 = 0x380F;
/// JPX
pub const JPX: u16 = 0x3810;
/// Raw image format
pub const RAW: u16 = 0x3820;

} // verus!
