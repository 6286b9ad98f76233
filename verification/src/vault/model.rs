//! The connection, group and variable data the vault logic reads.

use vstd::prelude::*;

verus! {

/// The protocol a connection speaks.
#[derive(Debug, Clone, Copy, PartialEq, Eq, Structural)]
pub enum ProtocolType {
    /// Secure shell.
    Ssh,
    /// Remote desktop.
    Rdp,
    /// VNC.
    Vnc,
    /// SPICE.
    Spice,
    /// Telnet.
    Telnet,
    /// Serial console.
    Serial,
    /// SFTP file transfer.
    Sftp,
    /// Kubernetes exec.
    Kubernetes,
    /// Mosh.
    Mosh,
    /// Embedded web page.
    Web,
}

/// The lower-case protocol name used inside lookup keys.
pub open spec fn protocol_name(p: ProtocolType) -> Seq<char> {
    match p {
        ProtocolType::Ssh => "ssh"@,
        ProtocolType::Rdp => "rdp"@,
        ProtocolType::Vnc => "vnc"@,
        ProtocolType::Spice => "spice"@,
        ProtocolType::Telnet => "telnet"@,
        ProtocolType::Serial => "serial"@,
        ProtocolType::Sftp => "sftp"@,
        ProtocolType::Kubernetes => "kubernetes"@,
        ProtocolType::Mosh => "mosh"@,
        ProtocolType::Web => "web"@,
    }
}

impl ProtocolType {
    /// The lower-case protocol name used inside lookup keys.
    pub fn key_name(self) -> (s: &'static str)
        ensures
            s@ == protocol_name(self),
    {
        match self {
            ProtocolType::Ssh => "ssh",
            ProtocolType::Rdp => "rdp",
            ProtocolType::Vnc => "vnc",
            ProtocolType::Spice => "spice",
            ProtocolType::Telnet => "telnet",
            ProtocolType::Serial => "serial",
            ProtocolType::Sftp => "sftp",
            ProtocolType::Kubernetes => "kubernetes",
            ProtocolType::Mosh => "mosh",
            ProtocolType::Web => "web",
        }
    }
}

/// Where a connection's or group's password comes from.
#[derive(Debug, Clone, Copy, PartialEq, Eq, Structural)]
pub enum PasswordSource {
    /// Asked for at connect time.
    Prompt,
    /// Stored in the configured vault.
    Vault,
    /// Taken from a variable.
    Variable,
    /// Inherited from the group.
    Inherit,
    /// No password.
    Unset,
}

/// A connection, as far as credential storage is concerned.
#[derive(Debug, Clone)]
pub struct Connection {
    /// The connection UUID.
    pub id: u128,
    /// Display name.
    pub name: String,
    /// Host name or address.
    pub host: String,
    /// Protocol.
    pub protocol: ProtocolType,
    /// Containing group, if any.
    pub group_id: Option<u128>,
    /// Username, if set.
    pub username: Option<String>,
    /// Where the password comes from.
    pub password_source: PasswordSource,
}

/// A connection group.
#[derive(Debug, Clone)]
pub struct ConnectionGroup {
    /// The group UUID.
    pub id: u128,
    /// Display name.
    pub name: String,
    /// Parent group, if nested.
    pub parent_id: Option<u128>,
    /// Where the group's password comes from, if it has one.
    pub password_source: Option<PasswordSource>,
    /// Username, if set.
    pub username: Option<String>,
}

/// A global variable.
#[derive(Debug, Clone)]
pub struct Variable {
    /// Variable name.
    pub name: String,
    /// The value; empty for a secret still to be read from the vault.
    pub value: String,
    /// Whether the value is a secret kept in the vault.
    pub is_secret: bool,
    /// A KeePass entry path the value is read from instead, if set.
    pub kdbx_entry_path: Option<String>,
    /// A vault entry name the value is read from instead, if set.
    pub vault_entry_name: Option<String>,
}

} // verus!
