//! Ticket metadata exchanged with the control plane.

use vstd::prelude::*;

verus! {

/// The projection of the most recently applied ticket that the table of
/// contents keeps. A `capacity_bytes` of zero means that no capacity is
/// enforced.
#[derive(Debug, PartialEq, Eq)]
pub struct TicketRef {
    pub issuer: String,
    pub seq_no: i64,
    pub expires_in_secs: u64,
    pub capacity_bytes: u64,
}

/// What a `TicketRef` holds, as mathematical values.
pub struct TicketRefView {
    pub issuer: Seq<char>,
    pub seq_no: int,
    pub expires_in_secs: nat,
    pub capacity_bytes: nat,
}

impl View for TicketRef {
    type V = TicketRefView;

    open spec fn view(&self) -> TicketRefView {
        TicketRefView {
            issuer: self.issuer@,
            seq_no: self.seq_no as int,
            expires_in_secs: self.expires_in_secs as nat,
            capacity_bytes: self.capacity_bytes as nat,
        }
    }
}

impl Clone for TicketRef {
    fn clone(&self) -> (res: Self)
        ensures
            res@ == self@,
    {
        TicketRef {
            issuer: self.issuer.clone(),
            seq_no: self.seq_no,
            expires_in_secs: self.expires_in_secs,
            capacity_bytes: self.capacity_bytes,
        }
    }
}

impl TicketRef {
    /// What a store holds of tickets before any was applied.
    pub open spec fn empty_view() -> TicketRefView {
        TicketRefView { issuer: Seq::empty(), seq_no: 0, expires_in_secs: 0, capacity_bytes: 0 }
    }

    /// The ticket state of a store to which no ticket was applied yet.
    pub fn empty() -> (res: Self)
        ensures
            res@ == Self::empty_view(),
    {
        TicketRef { issuer: String::new(), seq_no: 0, expires_in_secs: 0, capacity_bytes: 0 }
    }
}

/// Ticket information provided by the control plane.
#[derive(Debug, PartialEq, Eq)]
pub struct Ticket {
    pub issuer: String,
    pub seq_no: i64,
    pub expires_in_secs: u64,
    pub capacity_bytes: Option<u64>,
}

/// What a `Ticket` holds, as mathematical values.
pub struct TicketView {
    pub issuer: Seq<char>,
    pub seq_no: int,
    pub expires_in_secs: nat,
    pub capacity_bytes: Option<nat>,
}

impl View for Ticket {
    type V = TicketView;

    open spec fn view(&self) -> TicketView {
        TicketView {
            issuer: self.issuer@,
            seq_no: self.seq_no as int,
            expires_in_secs: self.expires_in_secs as nat,
            capacity_bytes: match self.capacity_bytes {
                Some(c) => Some(c as nat),
                None => None,
            },
        }
    }
}

impl Clone for Ticket {
    fn clone(&self) -> (res: Self)
        ensures
            res@ == self@,
    {
        Ticket {
            issuer: self.issuer.clone(),
            seq_no: self.seq_no,
            expires_in_secs: self.expires_in_secs,
            capacity_bytes: self.capacity_bytes,
        }
    }
}

impl Ticket {
    /// A ticket of `issuer` with sequence number `seq_no`, no expiry and no
    /// capacity of its own.
    #[must_use]
    pub fn new(issuer: &str, seq_no: i64) -> (res: Self)
        ensures
            res@ == (TicketView {
                issuer: issuer@,
                seq_no: seq_no as int,
                expires_in_secs: 0,
                capacity_bytes: None,
            }),
    {
        Ticket { issuer: issuer.to_owned(), seq_no, expires_in_secs: 0, capacity_bytes: None }
    }

    /// The same ticket with its expiry set to `value` seconds.
    #[must_use]
    pub fn expires_in_secs(self, value: u64) -> (res: Self)
        ensures
            res@ == (TicketView { expires_in_secs: value as nat, ..self@ }),
    {
        let mut ticket = self;
        ticket.expires_in_secs = value;
        ticket
    }

    /// The same ticket with its capacity set to `value` bytes.
    #[must_use]
    pub fn capacity_bytes(self, value: u64) -> (res: Self)
        ensures
            res@ == (TicketView { capacity_bytes: Some(value as nat), ..self@ }),
    {
        let mut ticket = self;
        ticket.capacity_bytes = Some(value);
        ticket
    }
}

} // verus!
