//! Which release channels of the Rust toolchain can build contracts.

use vstd::prelude::*;

verus! {

/// A release channel of the Rust toolchain.
#[derive(Debug, Clone, Copy, PartialEq, Eq, Structural)]
pub enum Channel {
    Dev,
    Nightly,
    Beta,
    Stable,
}

/// Why a toolchain cannot build contracts.
#[derive(Debug, Clone, Copy, PartialEq, Eq, Structural)]
pub enum ChannelError {
    /// Only nightly (or a development build) can; this channel cannot.
    Unsupported(Channel),
}

/// Accepts the nightly and development channels and refuses the others.
pub fn check_channel(channel: Channel) -> (r: Result<(), ChannelError>)
    ensures
        (channel is Dev || channel is Nightly) <==> r is Ok,
        r is Err ==> r->Err_0 == ChannelError::Unsupported(channel),
{
    match channel {
        Channel::Dev | Channel::Nightly => Ok(()),
        Channel::Stable | Channel::Beta => Err(ChannelError::Unsupported(channel)),
    }
}

/// The lower-case name of a channel.
pub fn channel_name(channel: Channel) -> (r: String)
    ensures
        r@ == match channel {
            Channel::Dev => seq!['d', 'e', 'v'],
            Channel::Nightly => seq!['n', 'i', 'g', 'h', 't', 'l', 'y'],
            Channel::Beta => seq!['b', 'e', 't', 'a'],
            Channel::Stable => seq!['s', 't', 'a', 'b', 'l', 'e'],
        },
{
    match channel {
        Channel::Dev => {
            proof {
                reveal_strlit("dev");
            }
            "dev".to_owned()
        },
        Channel::Nightly => {
            proof {
                reveal_strlit("nightly");
            }
            "nightly".to_owned()
        },
        Channel::Beta => {
            proof {
                reveal_strlit("beta");
            }
            "beta".to_owned()
        },
        Channel::Stable => {
            proof {
                reveal_strlit("stable");
            }
            "stable".to_owned()
        },
    }
}

} // verus!
