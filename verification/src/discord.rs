//! What the plugin sends to the remote gateway on its own account.

pub mod custom_commands;
