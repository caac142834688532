//! The sites that the aggregator reads, one module each.

pub mod site;
pub mod stu;
pub mod startup;
pub mod ssfilm;
pub mod mediamba;
pub mod oasis;
pub mod study;
pub mod biz;
pub mod lifelongedu;
pub mod aix;
pub mod ee;
pub mod ssudorm;
pub mod ssupath;
pub mod ssupath_table;
pub mod oasis_board;
pub mod chemeng;
pub mod inso;
pub mod stat;
pub mod lawyer;
pub mod lawyer_notice;
pub mod gnuboard;
pub mod wordpress;
pub mod me;
pub mod ssucatch;
pub mod infocom;
pub mod materials;
pub mod aix_notice;
pub mod dorm_notice;
