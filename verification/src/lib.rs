//! Bulk download of sticker sets from the Telegram Bot API.
//!
//! The library holds everything that is decided when sticker sets are
//! downloaded, and nothing that touches the network or the disk:
//!
//! - [`bot`]: what the API says of a bot, a sticker set and a sticker;
//! - [`links`]: from a pasted link to the name of a set;
//! - [`select`]: narrowing a list of sets down to the chosen ones;
//! - [`api`]: the addresses of the API and the reading of its replies;
//! - [`naming`]: the file that a sticker is stored in;
//! - [`queue`]: the bounded queue between the resolver and the workers;
//! - [`pipeline`]: the download pipeline as a state machine;
//! - [`error`]: what can go wrong with a request.
//!
//! Every function states what it returns as a contract over mathematical
//! values, and every contract is proved. The program around the library
//! performs the requests and writes the files as the pipeline tells it to.

pub mod api;
pub mod bot;
pub mod error;
pub mod links;
pub mod naming;
pub mod pipeline;
pub mod queue;
pub mod select;
