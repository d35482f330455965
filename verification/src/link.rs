//! Link types of captured frames.

use vstd::prelude::*;

verus! {

/// The link layer a capture handle reports.
#[derive(Debug, Clone, Copy, PartialEq, Eq, Structural)]
pub enum ArwahDataLink {
    Ethernet,
    Tun,
    Sll,
    RadioTap,
}

impl ArwahDataLink {
    /// Maps a numeric link type to its layer: Ethernet, raw IP tunnels,
    /// Linux cooked capture and radiotap are known; everything else is
    /// reported back as unsupported.
    pub fn arwah_from_linktype(linktype: i32) -> (r: Result<ArwahDataLink, i32>)
        ensures
            linktype == 1 ==> r == Ok::<ArwahDataLink, i32>(ArwahDataLink::Ethernet),
            linktype == 12 ==> r == Ok::<ArwahDataLink, i32>(ArwahDataLink::Tun),
            linktype == 113 ==> r == Ok::<ArwahDataLink, i32>(ArwahDataLink::Sll),
            linktype == 127 ==> r == Ok::<ArwahDataLink, i32>(ArwahDataLink::RadioTap),
            linktype != 1 && linktype != 12 && linktype != 113 && linktype != 127 ==> r == Err::<
                ArwahDataLink,
                i32,
            >(linktype),
    {
        if linktype == 1 {
            Ok(ArwahDataLink::Ethernet)
        } else if linktype == 12 {
            Ok(ArwahDataLink::Tun)
        } else if linktype == 113 {
            Ok(ArwahDataLink::Sll)
        } else if linktype == 127 {
            Ok(ArwahDataLink::RadioTap)
        } else {
            Err(linktype)
        }
    }
}

} // verus!
