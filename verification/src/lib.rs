//! Core of a small operating-system kernel, verified with Verus: packet
//! buffers, Ethernet demultiplexing, IPv4 routing, the TCP state machine,
//! the socket layer, a read-only ext4 driver, PID and user namespaces, and
//! boot command-line parsing.

pub mod cmdline;
pub mod ethernet;
pub mod ext4;
pub mod ipv4;
pub mod pid_ns;
pub mod route;
pub mod skb;
pub mod socket;
pub mod syscall;
pub mod tcp;
pub mod tcp_input;
pub mod tcp_output;
pub mod user_ns;

use vstd::prelude::*;

verus! {

/// Errors of the filesystem layer.
#[derive(Clone, Copy, PartialEq, Eq, Structural, Debug)]
pub enum FsError {
    /// The operation would block
    WouldBlock,
    /// An I/O error, including format errors fatal for a mount
    IoError,
    /// The operation or on-disk feature is not supported
    NotSupported,
    /// The entry or block is not present
    NotFound,
    /// The file handle is not valid
    InvalidFile,
    /// The inode is not a directory
    NotADirectory,
    /// The filesystem is read-only
    ReadOnly,
}

impl FsError {
    /// The filesystem error for a positive errno: 11 (EAGAIN) means
    /// would-block, everything else is reported as an I/O error.
    pub fn from_errno(errno: i32) -> (r: Self)
        ensures
            r == if errno == 11 {
                FsError::WouldBlock
            } else {
                FsError::IoError
            },
    {
        if errno == 11 {
            FsError::WouldBlock
        } else {
            FsError::IoError
        }
    }
}

/// Errors of the network core.
#[derive(Clone, Copy, PartialEq, Eq, Structural, Debug)]
pub enum NetError {
    /// No route to the destination
    NoRoute,
    /// The operation would block
    WouldBlock,
    /// The socket is not connected
    NotConnected,
    /// The peer refused the connection
    ConnectionRefused,
    /// The peer reset the connection
    ConnectionReset,
    /// Out of memory or table space
    NoMemory,
    /// The operation is not supported
    NotSupported,
}

impl NetError {
    /// The positive POSIX errno for this error.
    pub fn to_errno(self) -> (r: i32)
        ensures
            r == self.spec_errno(),
    {
        match self {
            NetError::NoRoute => 113,  // EHOSTUNREACH
            NetError::WouldBlock => 11,  // EAGAIN
            NetError::NotConnected => 107,  // ENOTCONN
            NetError::ConnectionRefused => 111,  // ECONNREFUSED
            NetError::ConnectionReset => 104,  // ECONNRESET
            NetError::NoMemory => 12,  // ENOMEM
            NetError::NotSupported => 95,  // EOPNOTSUPP
        }
    }

    /// The positive POSIX errno for this error.
    pub open spec fn spec_errno(self) -> i32 {
        match self {
            NetError::NoRoute => 113,
            NetError::WouldBlock => 11,
            NetError::NotConnected => 107,
            NetError::ConnectionRefused => 111,
            NetError::ConnectionReset => 104,
            NetError::NoMemory => 12,
            NetError::NotSupported => 95,
        }
    }
}

} // verus!
