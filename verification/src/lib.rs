// A community of energy producers: who owns how much of the shared installation, how
// generated energy is split into tokens, and how the members decide together.
//
// `address`       principals and contracts as plain values, and their encoding
// `big_endian`    numbers as bytes, the most significant first
// `membership`    members and their percentages
// `shares`        the split of generated energy among the members
// `distribution`  the membership ledger and the distribution engine
// `governance`    proposals, votes, finalization and execution
// `tally`         counting votes and deciding by them
// `wellformed`    the governance engine's invariant
// `laws`          what holds over the life of a governance engine
// `privacy`       commitments to hidden consumption

pub mod address;
pub mod big_endian;
pub mod distribution;
pub mod governance;
pub mod laws;
pub mod membership;
pub mod privacy;
pub mod shares;
pub mod tally;
pub mod wellformed;
