//! What holds of the library as a whole.

pub mod advising;
pub mod amounts;
pub mod answers;
pub mod balancers;
pub mod caution;
pub mod cloud;
pub mod collecting;
pub mod fabric;
pub mod filing;
pub mod grouping;
pub mod listing;
pub mod particulars;
pub mod path;
pub mod permission;
pub mod planning;
pub mod pods;
pub mod policies;
pub mod probing;
pub mod reports;
pub mod standing;
pub mod supply;
pub mod testing;
pub mod wording;
