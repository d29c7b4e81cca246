//! Client devices: their kinds, the rows the persistence port keeps for
//! them, and the partial-update patch a client may send.

use vstd::prelude::*;

verus! {

/// The kind of a client device. `Other` doubles as the "unspecified" kind.
#[derive(Debug, Clone, Copy, PartialEq, Eq, Structural)]
pub enum DeviceType {
    Desktop,
    Laptop,
    Mobile,
    Server,
    Other,
}

impl DeviceType {
    /// A fixed caption for each kind.
    pub fn as_str(&self) -> (r: &'static str)
        ensures
            r@ == self.spec_str(),
    {
        proof {
            reveal_strlit("Desktop");
            reveal_strlit("Laptop");
            reveal_strlit("Mobile");
            reveal_strlit("Server");
            reveal_strlit("Other");
        }
        match self {
            DeviceType::Desktop => "Desktop",
            DeviceType::Laptop => "Laptop",
            DeviceType::Mobile => "Mobile",
            DeviceType::Server => "Server",
            DeviceType::Other => "Other",
        }
    }

    /// What [`DeviceType::as_str`] returns.
    pub open spec fn spec_str(self) -> Seq<char> {
        match self {
            DeviceType::Desktop => "Desktop"@,
            DeviceType::Laptop => "Laptop"@,
            DeviceType::Mobile => "Mobile"@,
            DeviceType::Server => "Server"@,
            DeviceType::Other => "Other"@,
        }
    }

    /// Reads a kind back from a stored caption. Only `"Mobile"` is
    /// recognised; every other caption is rejected.
    pub fn try_from_str(s: &str) -> (r: Result<DeviceType, ()>)
        ensures
            s@ == "Mobile"@ ==> r == Ok::<DeviceType, ()>(DeviceType::Mobile),
            s@ != "Mobile"@ ==> r == Err::<DeviceType, ()>(()),
    {
        if crate::strutil::str_eq(s, "Mobile") {
            Ok(DeviceType::Mobile)
        } else {
            Err(())
        }
    }
}

impl Default for DeviceType {
    /// The unspecified kind.
    fn default() -> (r: Self)
        ensures
            r == DeviceType::Other,
    {
        DeviceType::Other
    }
}

/// One device row as the persistence port keeps it, keyed by
/// `(username, id)`.
#[derive(Debug, Clone)]
pub struct DeviceRecord {
    pub username: String,
    pub id: String,
    pub caption: String,
    pub dtype: DeviceType,
}

/// The mathematical value of a [`DeviceRecord`].
pub struct DeviceRecordV {
    pub username: Seq<char>,
    pub id: Seq<char>,
    pub caption: Seq<char>,
    pub dtype: DeviceType,
}

impl DeepView for DeviceRecord {
    type V = DeviceRecordV;

    open spec fn deep_view(&self) -> DeviceRecordV {
        DeviceRecordV {
            username: self.username@,
            id: self.id@,
            caption: self.caption@,
            dtype: self.dtype,
        }
    }
}

/// One device as reported to a client: its row together with the number of
/// subscription rows the account holds.
#[derive(Debug, Clone)]
pub struct DeviceAndSub {
    pub id: String,
    pub caption: String,
    pub dtype: DeviceType,
    pub subscriptions: u32,
}

/// The mathematical value of a [`DeviceAndSub`].
pub struct DeviceAndSubV {
    pub id: Seq<char>,
    pub caption: Seq<char>,
    pub dtype: DeviceType,
    pub subscriptions: u32,
}

impl DeepView for DeviceAndSub {
    type V = DeviceAndSubV;

    open spec fn deep_view(&self) -> DeviceAndSubV {
        DeviceAndSubV {
            id: self.id@,
            caption: self.caption@,
            dtype: self.dtype,
            subscriptions: self.subscriptions,
        }
    }
}

/// A partial update for a device row: a field that is present overwrites,
/// a field that is absent keeps what is stored.
#[derive(Debug, Clone)]
pub struct DeviceUpdate {
    pub caption: Option<String>,
    pub dtype: Option<DeviceType>,
}

/// The mathematical value of a [`DeviceUpdate`].
pub struct DeviceUpdateV {
    pub caption: Option<Seq<char>>,
    pub dtype: Option<DeviceType>,
}

impl DeepView for DeviceUpdate {
    type V = DeviceUpdateV;

    open spec fn deep_view(&self) -> DeviceUpdateV {
        DeviceUpdateV {
            caption: self.caption.deep_view(),
            dtype: match self.dtype {
                Some(t) => Some(t),
                None => None,
            },
        }
    }
}

} // verus!
