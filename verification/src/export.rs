//! Exporting a package to online judges.

pub mod syzoj;
