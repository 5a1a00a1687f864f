//! Constituent trellises for the BCJR decoder.

pub mod umts;
