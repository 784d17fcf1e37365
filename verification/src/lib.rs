//! Decoder for the telemetry frames that a Bluetooth digital multimeter
//! broadcasts: eleven obfuscated bytes become the digits on the display, the
//! reading they spell, the icons that are lit and the unit they imply.
//!
//! `Measurement::from_bytes` is the entry point. The steps it takes are
//! modules of their own: `keystream` removes the obfuscation, `frame`
//! splits the plain bytes into fields with the bit reader of `bits`,
//! `segment` names the character of each digit, `icon` resolves the icon
//! flags, `value` spells and reads the display by the grammar of `literal`
//! with the reader of `number`, and `unit` infers the unit. `session` holds the decisions of a
//! connection to the meter.

pub mod bits;
pub mod error;
pub mod frame;
pub mod icon;
pub mod keystream;
pub mod literal;
pub mod measurement;
pub mod number;
pub mod segment;
pub mod session;
pub mod text;
pub mod unit;
pub mod value;

pub use error::DecodeError;
pub use error::DmmError;
pub use icon::DisplayIcon;
pub use measurement::Measurement;
pub use number::Decimal;
pub use number::Number;
pub use segment::SevenSegmentDisplay;
pub use value::DisplayValue;
