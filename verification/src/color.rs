//! RGBA colors and their hexadecimal text form.

use vstd::prelude::*;
use vstd::string::StringExecFns;

use crate::chars::{parse_u32, spec_parse_u32, spec_trim, trim, ParseFailure};
use crate::error::WaverError;

verus! {

/// An RGBA color with 8-bit components.
#[derive(Clone, Debug)]
pub struct Rgba {
    /// Red component (0-255)
    pub red: u8,
    /// Green component (0-255)
    pub green: u8,
    /// Blue component (0-255)
    pub blue: u8,
    /// Alpha component (0-255)
    pub alpha: u8,
}

/// The opaque color a three-digit hex value denotes: each digit is doubled
/// into a full byte (`F` becomes `FF`, that is, `15 * 17`).
pub open spec fn spec_hex3_color(v: u32) -> Rgba {
    Rgba {
        red: ((((v >> 8) & 0xF) * 17) as u8),
        green: ((((v >> 4) & 0xF) * 17) as u8),
        blue: (((v & 0xF) * 17) as u8),
        alpha: 255,
    }
}

/// The opaque color a six-digit hex value denotes: one byte per component.
pub open spec fn spec_hex6_color(v: u32) -> Rgba {
    Rgba {
        red: (((v >> 16) & 0xFF) as u8),
        green: (((v >> 8) & 0xFF) as u8),
        blue: ((v & 0xFF) as u8),
        alpha: 255,
    }
}

/// The color an eight-digit hex value denotes: one byte per component, the
/// last one the alpha channel.
pub open spec fn spec_hex8_color(v: u32) -> Rgba {
    Rgba {
        red: (((v >> 24) & 0xFF) as u8),
        green: (((v >> 16) & 0xFF) as u8),
        blue: (((v >> 8) & 0xFF) as u8),
        alpha: ((v & 0xFF) as u8),
    }
}

impl Rgba {
    /// Creates a new RGBA color with the given components.
    pub fn new(red: u8, green: u8, blue: u8, alpha: u8) -> (c: Self)
        ensures
            c == (Rgba { red, green, blue, alpha }),
    {
        Self { red, green, blue, alpha }
    }

    /// Creates a new opaque RGB color with the given components and
    /// alpha 255.
    pub fn rgb(red: u8, green: u8, blue: u8) -> (c: Self)
        ensures
            c == (Rgba { red, green, blue, alpha: 255u8 }),
    {
        Self::new(red, green, blue, 255)
    }

    /// Parses a color written as three, six, or eight hex digits
    /// (`RGB`, `RRGGBB`, or `RRGGBBAA`), ignoring surrounding whitespace.
    /// Any other digit count, a non-hex character, an empty string, or a
    /// value beyond eight digits is rejected with a message naming the
    /// cause.
    pub fn parse(color: &str) -> (r: Result<Self, WaverError>)
        ensures
            ({
                let t = spec_trim(color@);
                let p = spec_parse_u32(t, 16);
                match p {
                    Ok(v) => {
                        if t.len() == 3 {
                            r == Ok::<Rgba, WaverError>(spec_hex3_color(v as u32))
                        } else if t.len() == 6 {
                            r == Ok::<Rgba, WaverError>(spec_hex6_color(v as u32))
                        } else if t.len() == 8 {
                            r == Ok::<Rgba, WaverError>(spec_hex8_color(v as u32))
                        } else {
                            r matches Err(WaverError::ArgumentError(m)) && m@
                                == "Color must be in RGB, RRGGBB, or RRGGBBAA format"@
                        }
                    },
                    Err(ParseFailure::Empty) => r matches Err(WaverError::ArgumentError(m)) && m@
                        == "Invalid color format: cannot parse integer from empty string"@,
                    Err(ParseFailure::InvalidDigit) => r matches Err(
                        WaverError::ArgumentError(m),
                    ) && m@ == "Invalid color format: invalid digit found in string"@,
                    Err(ParseFailure::Overflow) => r matches Err(WaverError::ArgumentError(m))
                        && m@ == "Invalid color format: number too large to fit in target data type"@,
                }
            }),
    {
        let hex = trim(color);
        match parse_u32(hex, 16) {
            Err(ParseFailure::Empty) => Err(
                WaverError::argument_error(
                    String::from_str("Invalid color format: cannot parse integer from empty string"),
                ),
            ),
            Err(ParseFailure::InvalidDigit) => Err(
                WaverError::argument_error(
                    String::from_str("Invalid color format: invalid digit found in string"),
                ),
            ),
            Err(ParseFailure::Overflow) => Err(
                WaverError::argument_error(
                    String::from_str(
                        "Invalid color format: number too large to fit in target data type",
                    ),
                ),
            ),
            Ok(value) => {
                let len = hex.unicode_len();
                if len == 3 {
                    proof {
                        assert((value >> 8) & 0xF <= 0xF && (value >> 4) & 0xF <= 0xF && value
                            & 0xF <= 0xF) by (bit_vector);
                    }
                    Ok(
                        Rgba {
                            red: (((value >> 8) & 0xF) as u8) * 17,
                            green: (((value >> 4) & 0xF) as u8) * 17,
                            blue: ((value & 0xF) as u8) * 17,
                            alpha: 255,
                        },
                    )
                } else if len == 6 {
                    proof {
                        assert((value >> 16) & 0xFF <= 0xFF && (value >> 8) & 0xFF <= 0xFF && value
                            & 0xFF <= 0xFF) by (bit_vector);
                    }
                    Ok(
                        Rgba {
                            red: ((value >> 16) & 0xFF) as u8,
                            green: ((value >> 8) & 0xFF) as u8,
                            blue: (value & 0xFF) as u8,
                            alpha: 255,
                        },
                    )
                } else if len == 8 {
                    proof {
                        assert((value >> 24) & 0xFF <= 0xFF && (value >> 16) & 0xFF <= 0xFF && (
                        value >> 8) & 0xFF <= 0xFF && value & 0xFF <= 0xFF) by (bit_vector);
                    }
                    Ok(
                        Rgba {
                            red: ((value >> 24) & 0xFF) as u8,
                            green: ((value >> 16) & 0xFF) as u8,
                            blue: ((value >> 8) & 0xFF) as u8,
                            alpha: (value & 0xFF) as u8,
                        },
                    )
                } else {
                    Err(
                        WaverError::argument_error(
                            String::from_str("Color must be in RGB, RRGGBB, or RRGGBBAA format"),
                        ),
                    )
                }
            },
        }
    }
}

impl std::str::FromStr for Rgba {
    type Err = WaverError;

    fn from_str(color: &str) -> Result<Self, WaverError> {
        Self::parse(color)
    }
}

} // verus!
