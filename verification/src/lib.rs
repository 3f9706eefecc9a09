//! Validated string types for the XML 1.1 `Name` production and for the
//! `NCName` and `QName` productions of Namespaces in XML.

pub mod strings;
