//! Folders, defaults and limits of the chat.

use vstd::prelude::*;

verus! {

/// Where a client saves the images it receives.
pub const IMAGES_FOLDER: &'static str = "./client/images/";

/// Where a client saves the files it receives.
pub const FILES_FOLDER: &'static str = "./client/files/";

/// Where a client keeps its log files.
pub const LOGS_FOLDER: &'static str = "./client/logs/";

/// The address a server listens on when none is given.
pub const DEFAULT_HOST: [u8; 4] = [127, 0, 0, 1];

/// The port a server listens on when none is given.
pub const DEFAULT_PORT: u16 = 11111;

/// Size of the buffer in which a client receives messages from the server.
pub const CLIENT_MSG_BUFFER_SIZE: usize = 65_536;

} // verus!
