//! Which drive letters are taken, remembered network drives among them.
use vstd::prelude::*;
use crate::text::{characters, joined};

verus! {

/// What a look at the system's drives leads to.
pub enum Reservation {
    /// The letter is taken.
    Taken,
    /// No local drive has it: ask for the network connection it stands for.
    AskNetwork,
    /// The question makes no sense, or the system cannot answer it.
    Refused { message: String },
}

pub enum ReservationView {
    Taken,
    AskNetwork,
    Refused { message: Seq<char> },
}

impl View for Reservation {
    type V = ReservationView;

    open spec fn view(&self) -> ReservationView {
        match *self {
            Reservation::Taken => ReservationView::Taken,
            Reservation::AskNetwork => ReservationView::AskNetwork,
            Reservation::Refused { message } => ReservationView::Refused { message: message@ },
        }
    }
}

/// An upper-case letter and a colon.
pub open spec fn is_drive(target: Seq<char>) -> bool {
    target.len() == 2 && 'A' <= target[0] <= 'Z' && target[1] == ':'
}

/// The bit that stands for a drive in the system's mask.
pub open spec fn drive_bit(target: Seq<char>) -> u32 {
    1u32 << (target[0] as u32 - 'A' as u32) as u32
}

/// Whether `target` is a drive letter.
pub fn is_drive_letter(target: &str) -> (is: bool)
    ensures
        is == is_drive(target@),
{
    let chars = characters(target);
    chars.len() == 2 && chars[0] >= 'A' && chars[0] <= 'Z' && chars[1] == ':'
}

/// What the mask of local drives says of a drive; zero is no mask.
pub open spec fn reservation_of(target: Seq<char>, mask: u32, reason: Seq<char>) -> ReservationView {
    if !is_drive(target) {
        ReservationView::Refused { message: "Expected a drive letter"@ }
    } else if mask == 0 {
        ReservationView::Refused { message: "Unable to enumerate drives: "@ + reason }
    } else if mask & drive_bit(target) != 0 {
        ReservationView::Taken
    } else {
        ReservationView::AskNetwork
    }
}

/// Whether the drive `target` is taken, given the mask of local drives. A mask
/// of zero means that they could not be listed; `reason` says why.
pub fn reserved(target: &str, mask: u32, reason: &str) -> (reservation: Reservation)
    ensures
        reservation@ == reservation_of(target@, mask, reason@),
{
    if !is_drive_letter(target) {
        return Reservation::Refused { message: "Expected a drive letter".to_owned() };
    }
    if mask == 0 {
        return Reservation::Refused { message: joined("Unable to enumerate drives: ", reason) };
    }
    let chars = characters(target);
    let place: u32 = chars[0] as u32 - 'A' as u32;
    if mask & (1u32 << place) != 0 {
        Reservation::Taken
    } else {
        Reservation::AskNetwork
    }
}

/// What the system says about the network connection of a drive.
#[derive(Clone, Copy, Debug, PartialEq, Eq, Structural)]
pub enum NetworkStatus {
    /// It is connected.
    NoError,
    /// It is connected, to a longer name than there was room for.
    MoreData,
    /// It is remembered, but not connected.
    ConnectionUnavailable,
    /// It stands for no connection.
    NotConnected,
    /// Something else.
    Other,
}

/// What the system's word on a drive's connection means: taken, free, or unclear.
pub open spec fn network_verdict(status: NetworkStatus) -> Option<bool> {
    match status {
        NetworkStatus::NoError => Some(true),
        NetworkStatus::MoreData => Some(true),
        NetworkStatus::ConnectionUnavailable => Some(true),
        NetworkStatus::NotConnected => Some(false),
        NetworkStatus::Other => None,
    }
}

/// Whether a drive that no local one has is taken: a remembered connection counts
/// even while it is down. `reason` says what went wrong, if something did.
pub fn network_reserved(status: NetworkStatus, reason: &str) -> (reserved: Result<bool, String>)
    ensures
        match network_verdict(status) {
            Some(taken) => reserved == Ok::<bool, String>(taken),
            None => reserved matches Err(text) && text@
                == "Cannot check network drive reservation: "@ + reason@,
        },
{
    match status {
        NetworkStatus::NoError => Ok(true),
        NetworkStatus::MoreData => Ok(true),
        NetworkStatus::ConnectionUnavailable => Ok(true),
        NetworkStatus::NotConnected => Ok(false),
        NetworkStatus::Other => Err(joined("Cannot check network drive reservation: ", reason)),
    }
}

/// Different letters have different bits: taking one drive says nothing of another.
pub proof fn law_letters_are_told_apart(a: Seq<char>, b: Seq<char>)
    requires
        is_drive(a),
        is_drive(b),
        a != b,
    ensures
        drive_bit(a) & drive_bit(b) == 0,
{
    let i = (a[0] as u32 - 'A' as u32) as u32;
    let j = (b[0] as u32 - 'A' as u32) as u32;
    assert(i != j) by {
        if i == j {
            assert(a =~= b);
        }
    }
    assert(i < 26 && j < 26 && i != j ==> (1u32 << i) & (1u32 << j) == 0) by (bit_vector);
}

/// A drive is one letter from A to Z and a colon, and it is taken in a mask of drives
/// exactly if the bit of that letter is set, counted from A.
pub proof fn law_the_mask_tells_taken_letters(target: Seq<char>, mask: u32)
    ensures
        is_drive(target) <==> {
            &&& target.len() == 2
            &&& 65 <= target[0] as int <= 90
            &&& target[1] == ':'
        },
        is_drive(target) ==> (mask & drive_bit(target) != 0 <==> (mask >> ((target[0] as int - 65)
            as u32)) & 1 == 1),
{
    if is_drive(target) {
        let i = (target[0] as u32 - 'A' as u32) as u32;
        assert((mask & (1u32 << i) != 0) <==> (mask >> i) & 1 == 1) by (bit_vector)
            requires
                i < 26,
        ;
    }
}

/// A letter is free only where no local drive has it and the system knows of no
/// connection for it: one that is up, or remembered while it is down, takes it too.
/// What cannot be told is neither taken nor free.
pub proof fn law_remembered_letters_are_taken(
    target: Seq<char>,
    mask: u32,
    reason: Seq<char>,
    status: NetworkStatus,
)
    ensures
        reservation_of(target, mask, reason) == ReservationView::Taken ==> is_drive(target) && mask
            != 0,
        is_drive(target) && mask != 0 ==> (reservation_of(target, mask, reason)
            == ReservationView::Taken <==> (mask >> ((target[0] as int - 65) as u32)) & 1 == 1),
        is_drive(target) && mask != 0 ==> (reservation_of(target, mask, reason)
            == ReservationView::AskNetwork <==> (mask >> ((target[0] as int - 65) as u32)) & 1
            != 1),
        is_drive(target) && mask == 0 ==> reservation_of(target, mask, reason) is Refused,
        !is_drive(target) ==> reservation_of(target, mask, reason) is Refused,
        network_verdict(status) == Some(false) <==> status == NetworkStatus::NotConnected,
        network_verdict(status) == Some(true) <==> status == NetworkStatus::NoError || status
            == NetworkStatus::MoreData || status == NetworkStatus::ConnectionUnavailable,
{
    law_the_mask_tells_taken_letters(target, mask);
}

} // verus!
