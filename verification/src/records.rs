//! What the registry records about an identity besides its code id.

use vstd::prelude::*;

verus! {

/// The fee charged for one action of a module.
#[derive(Debug, Clone, PartialEq, Eq)]
pub struct ActionFee {
    pub action: String,
    pub asset: String,
    pub amount: u128,
    pub receiver: Option<String>,
}

/// An [`ActionFee`] as a mathematical value.
pub struct FeeView {
    pub action: Seq<char>,
    pub asset: Seq<char>,
    pub amount: u128,
    pub receiver: Option<Seq<char>>,
}

impl View for ActionFee {
    type V = FeeView;

    open spec fn view(&self) -> FeeView {
        FeeView {
            action: self.action@,
            asset: self.asset@,
            amount: self.amount,
            receiver: match self.receiver {
                Some(r) => Some(r@),
                None => None,
            },
        }
    }
}

impl ActionFee {
    /// A fee of `amount` of `asset` for `action`, paid to `receiver` if one is given.
    pub fn new(action: String, asset: String, amount: u128, receiver: Option<String>) -> (r: ActionFee)
        ensures
            r.action == action,
            r.asset == asset,
            r.amount == amount,
            r.receiver == receiver,
    {
        ActionFee { action, asset, amount, receiver }
    }
}

/// When an identity was published, when its code id was last set, and by whom.
/// Times are in nanoseconds since the epoch.
#[derive(Debug, Clone, PartialEq, Eq)]
pub struct ADOMetadata {
    pub published_on: u64,
    pub updated_on: u64,
    pub last_updated_by: String,
}

/// An [`ADOMetadata`] as a mathematical value.
pub struct MetadataView {
    pub published_on: u64,
    pub updated_on: u64,
    pub last_updated_by: Seq<char>,
}

impl View for ADOMetadata {
    type V = MetadataView;

    open spec fn view(&self) -> MetadataView {
        MetadataView {
            published_on: self.published_on,
            updated_on: self.updated_on,
            last_updated_by: self.last_updated_by@,
        }
    }
}

/// The views of a list of fees.
pub open spec fn fee_views(fees: Seq<ActionFee>) -> Seq<FeeView> {
    fees.map_values(|f: ActionFee| f@)
}

/// The texts of a list of strings.
pub open spec fn texts(items: Seq<String>) -> Seq<Seq<char>> {
    items.map_values(|s: String| s@)
}

/// The text of an optional string.
pub open spec fn text_of(item: Option<String>) -> Option<Seq<char>> {
    match item {
        Some(s) => Some(s@),
        None => None,
    }
}

/// The text of an optional string slice.
pub open spec fn slice_text_of(item: Option<&str>) -> Option<Seq<char>> {
    match item {
        Some(s) => Some(s@),
        None => None,
    }
}

} // verus!
