use vstd::prelude::*;

verus! {

/// Number of things listed when the query names no limit.
pub const LIMIT_DEFAULT: u32 = 100;

/// Largest number of things one listing returns.
pub const LIMIT_MAX: u32 = 100;

/// A thing that can be ranked, with the file that pictures it.
#[derive(Clone, PartialEq, Eq, Debug)]
pub struct Thing {
    pub id: i32,
    pub name: String,
    pub file: String,
}

/// Column by which things are listed.
#[derive(Clone, Copy, PartialEq, Eq, Structural, Debug)]
pub enum Order {
    Name,
    Created,
}

/// Query parameters for listing things.
#[derive(Clone, Copy, PartialEq, Eq, Debug)]
pub struct QueryParams {
    pub order: Option<Order>,
    pub desc: Option<bool>,
    pub limit: Option<u32>,
}

impl QueryParams {
    /// The number of things to list: the requested limit or the default,
    /// capped at [`LIMIT_MAX`].
    pub fn effective_limit(&self) -> (r: u32)
        ensures
            r == (match self.limit {
                Some(l) => if l < LIMIT_MAX {
                    l
                } else {
                    LIMIT_MAX
                },
                None => LIMIT_DEFAULT,
            }),
    {
        let l = match self.limit {
            Some(l) => l,
            None => LIMIT_DEFAULT,
        };
        if l < LIMIT_MAX {
            l
        } else {
            LIMIT_MAX
        }
    }

    /// Whether the listing is in descending order: only when asked for.
    pub fn is_descending(&self) -> (r: bool)
        ensures
            r == (self.desc == Some(true)),
    {
        match self.desc {
            Some(d) => d,
            None => false,
        }
    }
}

} // verus!
