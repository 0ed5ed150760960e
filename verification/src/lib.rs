//! The rules of a picture-guessing quiz.
//!
//! A player is shown an image and four options and picks the option that
//! holds the image of the question before. Right answers in a row are
//! counted; a wrong answer ends the round, and so does the thirtieth right
//! answer of a race. The results of rounds feed two leaderboards.
//!
//! - [`catalog`]: which files are images of the catalog, and their addresses.
//! - [`draw`]: random positions of the catalog, and four different ones.
//! - [`question`]: the question that a set of draws gives.
//! - [`session`]: what asking for a question and choosing a name do to a
//!   player's session.
//! - [`answer`]: judging an answer, and the record that a finished round
//!   leaves.
//! - [`leaderboard`]: ranking the stored records.
//! - [`models`], [`error`], [`clock`]: the values, the failures, and the
//!   moments of time that the rules speak of.
//!
//! Every function states what it returns and what it changes, and is proved
//! to do so. Reading the clock, drawing random numbers and the record store
//! are outside these rules: what they yield is taken as it comes.

pub mod answer;
pub mod catalog;
pub mod clock;
pub mod draw;
pub mod error;
pub mod leaderboard;
pub mod models;
pub mod question;
pub mod session;
