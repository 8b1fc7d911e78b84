//! The attributes that each operation writes to its log.

use vstd::prelude::*;
use vstd::string::*;
use crate::ado_version::{type_of, version_of, ADOVersion};
use crate::response::{attr, attribute_views, Attribute};

verus! {

/// The character that writes the digit `d`.
pub open spec fn digit_char(d: nat) -> char {
    if d == 0 {
        '0'
    } else if d == 1 {
        '1'
    } else if d == 2 {
        '2'
    } else if d == 3 {
        '3'
    } else if d == 4 {
        '4'
    } else if d == 5 {
        '5'
    } else if d == 6 {
        '6'
    } else if d == 7 {
        '7'
    } else if d == 8 {
        '8'
    } else {
        '9'
    }
}

/// `n` written in decimal, without leading zeros.
pub open spec fn decimal(n: nat) -> Seq<char>
    decreases n,
{
    if n < 10 {
        seq![digit_char(n)]
    } else {
        decimal(n / 10).push(digit_char(n % 10))
    }
}

/// The text of one digit.
fn digit_text(d: u64) -> (r: &'static str)
    requires
        d < 10,
    ensures
        r@ == seq![digit_char(d as nat)],
{
    proof {
        reveal_strlit("0");
        reveal_strlit("1");
        reveal_strlit("2");
        reveal_strlit("3");
        reveal_strlit("4");
        reveal_strlit("5");
        reveal_strlit("6");
        reveal_strlit("7");
        reveal_strlit("8");
        reveal_strlit("9");
    }
    let r = if d == 0 {
        "0"
    } else if d == 1 {
        "1"
    } else if d == 2 {
        "2"
    } else if d == 3 {
        "3"
    } else if d == 4 {
        "4"
    } else if d == 5 {
        "5"
    } else if d == 6 {
        "6"
    } else if d == 7 {
        "7"
    } else if d == 8 {
        "8"
    } else {
        "9"
    };
    assert(r@ =~= seq![digit_char(d as nat)]);
    r
}

/// `n` written in decimal.
pub fn decimal_string(n: u64) -> (r: String)
    ensures
        r@ == decimal(n as nat),
{
    let mut text = digit_text(n % 10).to_owned();
    let mut rest = n / 10;
    // `text` holds the digits written so far: `decimal(n)` is `decimal` of
    // what is left, followed by them.
    while rest > 0
        invariant
            text@.len() > 0,
            rest == 0 ==> text@ == decimal(n as nat),
            rest > 0 ==> decimal(n as nat) == decimal(rest as nat) + text@,
        decreases rest,
    {
        let digit = digit_text(rest % 10).to_owned();
        let ghost before = text@;
        let ghost r0 = rest as nat;
        text = digit.concat(text.as_str());
        rest = rest / 10;
        proof {
            if r0 < 10 {
                assert(decimal(r0) =~= seq![digit_char(r0 % 10)]);
                assert(text@ =~= decimal(r0) + before);
            } else {
                assert(decimal(r0) == decimal(r0 / 10).push(digit_char(r0 % 10)));
                assert(decimal(r0) + before =~= decimal(r0 / 10) + text@);
            }
        }
    }
    text
}

/// The names under which operations log what they did.
pub struct Attributes;

impl Attributes {
    pub open spec fn update_code_id_view(key: Seq<char>, code_id: u64) -> Seq<(Seq<char>, Seq<char>)> {
        seq![
            ("action"@, "update_code_id"@),
            ("code_id_key"@, key),
            ("code_id"@, decimal(code_id as nat)),
        ]
    }

    pub open spec fn publish_view() -> Seq<(Seq<char>, Seq<char>)> {
        seq![("action"@, "publish_ado"@)]
    }

    pub open spec fn update_action_fees_view(key: Seq<char>) -> Seq<(Seq<char>, Seq<char>)> {
        seq![("action"@, "update_action_fees"@), ("ado_type"@, key)]
    }

    pub open spec fn update_action_fee_view(action: Seq<char>) -> (Seq<char>, Seq<char>) {
        ("update_action"@, action)
    }

    pub open spec fn remove_action_fees_view(key: Seq<char>) -> Seq<(Seq<char>, Seq<char>)> {
        seq![("action"@, "remove_action_fees"@), ("ado_type"@, key)]
    }

    pub open spec fn remove_action_fee_view(action: Seq<char>) -> (Seq<char>, Seq<char>) {
        ("remove_action"@, action)
    }

    pub open spec fn store_code_id_view(key: Seq<char>, code_id: u64) -> Seq<(Seq<char>, Seq<char>)> {
        seq![
            ("action"@, "store_code_id"@),
            ("ado_type"@, type_of(key)),
            ("version"@, version_of(key)),
            ("key"@, key),
            ("code_id"@, decimal(code_id as nat)),
        ]
    }

    pub open spec fn update_latest_version_view(key: Seq<char>) -> Seq<(Seq<char>, Seq<char>)> {
        seq![("action"@, "update_latest_version"@), ("version"@, key)]
    }

    pub open spec fn update_metadata_view(key: Seq<char>) -> Seq<(Seq<char>, Seq<char>)> {
        seq![("action"@, "update_metadata"@), ("update_metadata"@, key)]
    }

    pub open spec fn update_publisher_view(publisher: Seq<char>) -> Seq<(Seq<char>, Seq<char>)> {
        seq![("action"@, "update_publisher"@), ("update_publisher"@, publisher)]
    }

    /// The log of a change of the code id of `ado_version` to `code_id`.
    pub fn update_code_id(ado_version: &str, code_id: u64) -> (r: Vec<Attribute>)
        ensures
            attribute_views(r@) == Self::update_code_id_view(ado_version@, code_id),
    {
        let mut r = Vec::new();
        r.push(attr("action", "update_code_id"));
        r.push(attr("code_id_key", ado_version));
        r.push(attr("code_id", decimal_string(code_id).as_str()));
        assert(attribute_views(r@) =~= Self::update_code_id_view(ado_version@, code_id));
        r
    }

    /// The log of a publication.
    pub fn publish() -> (r: Vec<Attribute>)
        ensures
            attribute_views(r@) == Self::publish_view(),
    {
        let mut r = Vec::new();
        r.push(attr("action", "publish_ado"));
        assert(attribute_views(r@) =~= Self::publish_view());
        r
    }

    /// The head of the log of a change of the fees of `ado_version`.
    pub fn update_action_fees(ado_version: &str) -> (r: Vec<Attribute>)
        ensures
            attribute_views(r@) == Self::update_action_fees_view(ado_version@),
    {
        let mut r = Vec::new();
        r.push(attr("action", "update_action_fees"));
        r.push(attr("ado_type", ado_version));
        assert(attribute_views(r@) =~= Self::update_action_fees_view(ado_version@));
        r
    }

    /// The log of a change of the fee of `action`.
    pub fn update_action_fee(action: &str) -> (r: Attribute)
        ensures
            r@ == Self::update_action_fee_view(action@),
    {
        attr("update_action", action)
    }

    /// The head of the log of a removal of fees of `ado_version`.
    pub fn remove_action_fees(ado_version: &str) -> (r: Vec<Attribute>)
        ensures
            attribute_views(r@) == Self::remove_action_fees_view(ado_version@),
    {
        let mut r = Vec::new();
        r.push(attr("action", "remove_action_fees"));
        r.push(attr("ado_type", ado_version));
        assert(attribute_views(r@) =~= Self::remove_action_fees_view(ado_version@));
        r
    }

    /// The log of the removal of the fee of `action`.
    pub fn remove_action_fee(action: &str) -> (r: Attribute)
        ensures
            r@ == Self::remove_action_fee_view(action@),
    {
        attr("remove_action", action)
    }

    /// The log of the binding of `ado_version` to `code_id`.
    pub fn store_code_id(ado_version: &ADOVersion, code_id: u64) -> (r: Vec<Attribute>)
        ensures
            attribute_views(r@) == Self::store_code_id_view(ado_version@, code_id),
    {
        let mut r = Vec::new();
        r.push(attr("action", "store_code_id"));
        r.push(attr("ado_type", ado_version.get_type().as_str()));
        r.push(attr("version", ado_version.get_version().as_str()));
        r.push(attr("key", ado_version.as_str()));
        r.push(attr("code_id", decimal_string(code_id).as_str()));
        assert(attribute_views(r@) =~= Self::store_code_id_view(ado_version@, code_id));
        r
    }

    /// The log of an update of the latest version by `ado_version`.
    pub fn update_latest_version(ado_version: &ADOVersion) -> (r: Vec<Attribute>)
        ensures
            attribute_views(r@) == Self::update_latest_version_view(ado_version@),
    {
        let mut r = Vec::new();
        r.push(attr("action", "update_latest_version"));
        r.push(attr("version", ado_version.as_str()));
        assert(attribute_views(r@) =~= Self::update_latest_version_view(ado_version@));
        r
    }

    /// The log of an update of the record of `ado_version`.
    pub fn update_metadata(ado_version: &ADOVersion) -> (r: Vec<Attribute>)
        ensures
            attribute_views(r@) == Self::update_metadata_view(ado_version@),
    {
        let mut r = Vec::new();
        r.push(attr("action", "update_metadata"));
        r.push(attr("update_metadata", ado_version.as_str()));
        assert(attribute_views(r@) =~= Self::update_metadata_view(ado_version@));
        r
    }

    /// The log of a change of publisher to `publisher`.
    pub fn update_publisher(publisher: &str) -> (r: Vec<Attribute>)
        ensures
            attribute_views(r@) == Self::update_publisher_view(publisher@),
    {
        let mut r = Vec::new();
        r.push(attr("action", "update_publisher"));
        r.push(attr("update_publisher", publisher));
        assert(attribute_views(r@) =~= Self::update_publisher_view(publisher@));
        r
    }
}

} // verus!
