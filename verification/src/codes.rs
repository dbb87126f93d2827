//! The numbers by which nodes and wallets report states, and the names that
//! the steps of a scenario use for them.

use crate::text::same_text;
use vstd::prelude::*;

verus! {

/// Where a node has a transaction.
#[derive(Clone, Copy, Debug, PartialEq, Eq, Structural)]
pub enum TxLocation {
    Unknown,
    Mempool,
    NotStored,
    Mined,
}

/// The location that a node reports with `code`, if it is one.
pub open spec fn location_of(code: i32) -> Option<TxLocation> {
    if code == 0 {
        Some(TxLocation::Unknown)
    } else if code == 1 {
        Some(TxLocation::Mempool)
    } else if code == 2 {
        Some(TxLocation::NotStored)
    } else if code == 3 {
        Some(TxLocation::Mined)
    } else {
        None
    }
}

/// The name that steps use for a location.
pub open spec fn location_text(location: TxLocation) -> Seq<char> {
    match location {
        TxLocation::Unknown => "UNKNOWN"@,
        TxLocation::Mempool => "MEMPOOL"@,
        TxLocation::NotStored => "NOT STORED"@,
        TxLocation::Mined => "MINED"@,
    }
}

impl TxLocation {
    /// The location that a node reports with `code`; `None` for a number
    /// that stands for none.
    pub fn from_code(code: i32) -> (r: Option<TxLocation>)
        ensures
            r == location_of(code),
    {
        if code == 0 {
            Some(TxLocation::Unknown)
        } else if code == 1 {
            Some(TxLocation::Mempool)
        } else if code == 2 {
            Some(TxLocation::NotStored)
        } else if code == 3 {
            Some(TxLocation::Mined)
        } else {
            None
        }
    }

    /// The name that steps use for this location.
    pub fn name(&self) -> (out: &'static str)
        ensures
            out@ == location_text(*self),
    {
        match self {
            TxLocation::Unknown => "UNKNOWN",
            TxLocation::Mempool => "MEMPOOL",
            TxLocation::NotStored => "NOT STORED",
            TxLocation::Mined => "MINED",
        }
    }

    /// Whether a step that expects `expected` is met by this location.
    pub fn is_named(&self, expected: &str) -> (yes: bool)
        ensures
            yes == (location_text(*self) == expected@),
    {
        same_text(self.name(), expected)
    }
}

/// The status that a wallet reports as broadcast.
pub const STATUS_BROADCAST: i32 = 1;

/// The status that a wallet reports as mined and confirmed.
pub const STATUS_MINED_CONFIRMED: i32 = 6;

/// The number by which a wallet reports the transaction status called `name`.
pub open spec fn status_code_of(name: Seq<char>) -> Option<i32> {
    if name == "TRANSACTION_STATUS_COMPLETED"@ {
        Some(0i32)
    } else if name == "TRANSACTION_STATUS_BROADCAST"@ {
        Some(1i32)
    } else if name == "TRANSACTION_STATUS_MINED_UNCONFIRMED"@ {
        Some(2i32)
    } else if name == "TRANSACTION_STATUS_IMPORTED"@ {
        Some(3i32)
    } else if name == "TRANSACTION_STATUS_PENDING"@ {
        Some(4i32)
    } else if name == "TRANSACTION_STATUS_COINBASE"@ {
        Some(5i32)
    } else if name == "TRANSACTION_STATUS_MINED_CONFIRMED"@ {
        Some(6i32)
    } else if name == "TRANSACTION_STATUS_NOT_FOUND"@ {
        Some(7i32)
    } else if name == "TRANSACTION_STATUS_REJECTED"@ {
        Some(8i32)
    } else if name == "TRANSACTION_STATUS_FAUX_UNCONFIRMED"@ {
        Some(9i32)
    } else if name == "TRANSACTION_STATUS_FAUX_CONFIRMED"@ {
        Some(10i32)
    } else if name == "TRANSACTION_STATUS_QUEUED"@ {
        Some(11i32)
    } else {
        None
    }
}

/// The number by which a wallet reports the transaction status called
/// `name`; `None` for a name that no status has.
pub fn status_code(name: &str) -> (r: Option<i32>)
    ensures
        r == status_code_of(name@),
{
    if same_text(name, "TRANSACTION_STATUS_COMPLETED") {
        Some(0)
    } else if same_text(name, "TRANSACTION_STATUS_BROADCAST") {
        Some(1)
    } else if same_text(name, "TRANSACTION_STATUS_MINED_UNCONFIRMED") {
        Some(2)
    } else if same_text(name, "TRANSACTION_STATUS_IMPORTED") {
        Some(3)
    } else if same_text(name, "TRANSACTION_STATUS_PENDING") {
        Some(4)
    } else if same_text(name, "TRANSACTION_STATUS_COINBASE") {
        Some(5)
    } else if same_text(name, "TRANSACTION_STATUS_MINED_CONFIRMED") {
        Some(6)
    } else if same_text(name, "TRANSACTION_STATUS_NOT_FOUND") {
        Some(7)
    } else if same_text(name, "TRANSACTION_STATUS_REJECTED") {
        Some(8)
    } else if same_text(name, "TRANSACTION_STATUS_FAUX_UNCONFIRMED") {
        Some(9)
    } else if same_text(name, "TRANSACTION_STATUS_FAUX_CONFIRMED") {
        Some(10)
    } else if same_text(name, "TRANSACTION_STATUS_QUEUED") {
        Some(11)
    } else {
        None
    }
}

/// The number by which a wallet reports the connectivity that is called
/// `name` in capital letters.
pub open spec fn connectivity_of(name: Seq<char>) -> Option<i32> {
    if name == "INITIALIZING"@ {
        Some(0i32)
    } else if name == "ONLINE"@ {
        Some(1i32)
    } else if name == "DEGRADED"@ {
        Some(2i32)
    } else if name == "OFFLINE"@ {
        Some(3i32)
    } else {
        None
    }
}

/// `s` in capital letters, as `str::to_uppercase` of the standard library gives it.
pub uninterp spec fn uppercased(s: Seq<char>) -> Seq<char>;

/// `str::to_uppercase`: the text in capital letters. The result depends on
/// the text alone.
#[verifier::external_body]
fn to_upper(s: &str) -> (out: String)
    ensures
        out@ == uppercased(s@),
{
    s.to_uppercase()
}

/// The number by which a wallet reports the connectivity called `name`, which
/// is given in capital letters; `None` for a name that no connectivity has.
pub fn connectivity_code(name: &str) -> (r: Option<i32>)
    ensures
        r == connectivity_of(name@),
{
    if same_text(name, "INITIALIZING") {
        Some(0)
    } else if same_text(name, "ONLINE") {
        Some(1)
    } else if same_text(name, "DEGRADED") {
        Some(2)
    } else if same_text(name, "OFFLINE") {
        Some(3)
    } else {
        None
    }
}

/// The number by which a wallet reports the connectivity called `name`, in
/// whatever case the name is written.
pub fn connectivity_index(name: &str) -> (r: Option<i32>)
    ensures
        r == connectivity_of(uppercased(name@)),
{
    let upper = to_upper(name);
    connectivity_code(upper.as_str())
}

} // verus!
