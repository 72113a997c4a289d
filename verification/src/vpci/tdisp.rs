//! Packets that carry TDISP commands.
use vstd::prelude::*;

verus! {

/// A packet that carries a command.
#[derive(Debug)]
pub struct VpciTdispCommand {
    /// The slot of the device.
    pub slot: u32,
    /// The length of the command.
    pub data_length: u64,
    /// The command.
    pub data: Vec<u8>,
}

/// A command is too long for a packet.
#[derive(Debug, Clone, Copy, PartialEq, Eq)]
pub struct CommandTooLong {
    /// The length of the command.
    pub len: usize,
    /// The longest length.
    pub max: usize,
}

/// What sends commands for a device.
#[derive(Debug, Clone, Copy)]
pub struct VpciTdispTransport {
    /// The slot, which also says to the host which device it is.
    pub slot: u64,
    /// The length of the longest command that fits into a packet.
    pub max_command_size: usize,
}

impl VpciTdispTransport {
    /// Creates a transport for the device in a slot.
    pub fn new(slot: u64, max_command_size: usize) -> (r: Self)
        ensures
            r == (VpciTdispTransport { slot, max_command_size }),
    {
        VpciTdispTransport { slot, max_command_size }
    }

    /// Returns what identifies the device to the host.
    pub fn bus_device_id(&self) -> (r: u64)
        ensures
            r == self.slot,
    {
        self.slot
    }

    /// Makes the packet for a command. The lower half of the slot addresses it.
    pub fn send_command(&self, command: Vec<u8>) -> (r: Result<VpciTdispCommand, CommandTooLong>)
        ensures
            match r {
                Ok(packet) => {
                    &&& command@.len() <= self.max_command_size
                    &&& packet.slot == self.slot as int % 0x1_0000_0000
                    &&& packet.data_length == command@.len()
                    &&& packet.data@ == command@
                },
                Err(e) => {
                    &&& command@.len() > self.max_command_size
                    &&& e.len == command@.len()
                    &&& e.max == self.max_command_size
                },
            },
    {
        if command.len() > self.max_command_size {
            return Err(CommandTooLong { len: command.len(), max: self.max_command_size });
        }
        Ok(
            VpciTdispCommand {
                slot: (self.slot % 0x1_0000_0000) as u32,
                data_length: command.len() as u64,
                data: command,
            },
        )
    }
}

}
