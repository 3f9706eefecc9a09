//! String types.

pub mod bytes;
pub mod compare;
pub mod name;
pub mod ncname;
pub mod order;
pub mod parse;
pub mod qname;

pub use self::name::{is_name_char, is_name_start_char, validate_name_str};
pub use self::name::{NameError, NameFault, NameStr, NameString};
pub use self::ncname::{is_ncname_char, is_ncname_start_char, validate_ncname_str};
pub use self::ncname::{NcnameStr, NcnameString};
pub use self::parse::{ParseError, ParseErrorKind};
pub use self::qname::{Qname, QnameView};
