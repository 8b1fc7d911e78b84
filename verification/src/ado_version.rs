//! Identity keys of the form `type@version`.
//!
//! A key is split at its first `@`. What stands before it is the module type;
//! what follows is the version. A key without `@` names the latest version of
//! its type.

use vstd::prelude::*;
use vstd::std_specs::iter::IteratorSpec;
use vstd::string::*;

verus! {

/// The version that a key without `@` stands for.
pub open spec fn latest_text() -> Seq<char> {
    "latest"@
}

/// `i` is the position of the first `@` in `key`.
pub open spec fn is_first_separator(key: Seq<char>, i: int) -> bool {
    &&& 0 <= i < key.len()
    &&& key[i] == '@'
    &&& forall|j: int| 0 <= j < i ==> key[j] != '@'
}

/// Whether `key` holds an `@`.
pub open spec fn has_separator(key: Seq<char>) -> bool {
    exists|i: int| is_first_separator(key, i)
}

/// The position of the first `@` in `key`, or the length of `key` if it holds none.
pub open spec fn separator_index(key: Seq<char>) -> int {
    if has_separator(key) {
        choose|i: int| is_first_separator(key, i)
    } else {
        key.len() as int
    }
}

/// The module type that `key` names: what stands before its first `@`.
pub open spec fn type_of(key: Seq<char>) -> Seq<char> {
    key.subrange(0, separator_index(key))
}

/// The version that `key` names: what follows its first `@`, or `latest`
/// where the key holds no `@`.
pub open spec fn version_of(key: Seq<char>) -> Seq<char> {
    if has_separator(key) {
        key.subrange(separator_index(key) + 1, key.len() as int)
    } else {
        latest_text()
    }
}

/// The key of the identity `(ado_type, version)`.
pub open spec fn compose(ado_type: Seq<char>, version: Seq<char>) -> Seq<char> {
    ado_type + seq!['@'] + version
}

/// A strict identity names a module type and a concrete version of it.
pub open spec fn is_strict(key: Seq<char>) -> bool {
    &&& type_of(key).len() > 0
    &&& has_separator(key)
    &&& version_of(key).len() > 0
    &&& version_of(key) != latest_text()
}

/// The first `@` of a key is unique.
pub proof fn lemma_first_separator_unique(key: Seq<char>, i: int, j: int)
    requires
        is_first_separator(key, i),
        is_first_separator(key, j),
    ensures
        i == j,
{
    if i < j {
        assert(key[i] != '@');
    } else if j < i {
        assert(key[j] != '@');
    }
}

/// Where the first `@` of a key stands, once one position is known.
pub proof fn lemma_separator_at(key: Seq<char>, i: int)
    requires
        is_first_separator(key, i),
    ensures
        has_separator(key),
        separator_index(key) == i,
{
    let k = choose|k: int| is_first_separator(key, k);
    lemma_first_separator_unique(key, i, k);
}

/// A key without `@` has no separator.
pub proof fn lemma_no_separator(key: Seq<char>)
    requires
        forall|j: int| 0 <= j < key.len() ==> key[j] != '@',
    ensures
        !has_separator(key),
        separator_index(key) == key.len(),
{
    if has_separator(key) {
        let k = choose|k: int| is_first_separator(key, k);
        assert(key[k] == '@');
    }
}

/// The module type of a key holds no `@`.
pub proof fn lemma_type_has_no_separator(key: Seq<char>)
    ensures
        !has_separator(type_of(key)),
        type_of(type_of(key)) == type_of(key),
{
    let t = type_of(key);
    if has_separator(key) {
        let i = separator_index(key);
        assert forall|j: int| 0 <= j < t.len() implies t[j] != '@' by {
            assert(t[j] == key[j]);
        }
    } else {
        assert(t =~= key);
        assert forall|j: int| 0 <= j < t.len() implies t[j] != '@' by {
            if t[j] == '@' {
                lemma_exists_first(key, j);
            }
        }
    }
    lemma_no_separator(t);
    assert(type_of(t) =~= t);
}

/// A key that holds an `@` anywhere has a first one, at or before it.
pub proof fn lemma_exists_first(key: Seq<char>, at: int)
    requires
        0 <= at < key.len(),
        key[at] == '@',
    ensures
        has_separator(key),
        separator_index(key) <= at,
    decreases at,
{
    if forall|j: int| 0 <= j < at ==> key[j] != '@' {
        assert(is_first_separator(key, at));
        lemma_separator_at(key, at);
    } else {
        let j = choose|j: int| 0 <= j < at && key[j] == '@';
        lemma_exists_first(key, j);
    }
}

/// Splitting a composed key gives back its parts, when the type holds no `@`.
pub proof fn lemma_split_compose(ado_type: Seq<char>, version: Seq<char>)
    requires
        !has_separator(ado_type),
    ensures
        has_separator(compose(ado_type, version)),
        separator_index(compose(ado_type, version)) == ado_type.len(),
        type_of(compose(ado_type, version)) == ado_type,
        version_of(compose(ado_type, version)) == version,
{
    let key = compose(ado_type, version);
    let n = ado_type.len() as int;
    assert(key[n] == '@');
    assert forall|j: int| 0 <= j < n implies key[j] != '@' by {
        assert(key[j] == ado_type[j]);
        if ado_type[j] == '@' {
            lemma_exists_first(ado_type, j);
        }
    }
    assert(is_first_separator(key, n));
    lemma_separator_at(key, n);
    assert(key.subrange(0, n) =~= ado_type);
    assert(key.subrange(n + 1, key.len() as int) =~= version);
}

/// Composing the parts of a key that holds an `@` gives back the key.
pub proof fn lemma_compose_split(key: Seq<char>)
    requires
        has_separator(key),
    ensures
        compose(type_of(key), version_of(key)) == key,
{
    let i = separator_index(key);
    assert(is_first_separator(key, i));
    assert(compose(type_of(key), version_of(key)) =~= key);
}

/// Whether two texts are the same.
pub fn same_text(a: &str, b: &str) -> (r: bool)
    ensures
        r == (a@ == b@),
{
    let left = a.to_owned();
    let right = b.to_owned();
    left == right
}

/// The position of the first `@` in `text`, or its length in characters if
/// it holds none.
pub fn find_separator(text: &str) -> (r: usize)
    ensures
        r == separator_index(text@),
        r <= text@.len(),
        r < text@.len() <==> has_separator(text@),
{
    let n = text.unicode_len();
    let mut rest = text.chars();
    let mut i: usize = 0;
    loop
        invariant
            n == text@.len(),
            i <= n,
            rest.remaining() == text@.skip(i as int),
            forall|j: int| 0 <= j < i ==> text@[j] != '@',
        decreases n - i,
    {
        match rest.next() {
            Some(c) => {
                assert(c == text@[i as int]);
                if c == '@' {
                    proof {
                        assert(is_first_separator(text@, i as int));
                        lemma_separator_at(text@, i as int);
                    }
                    return i;
                }
                assert(text@.skip(i as int).drop_first() =~= text@.skip(i + 1));
                i += 1;
            },
            None => {
                proof {
                    lemma_no_separator(text@);
                }
                return n;
            },
        }
    }
}

/// An identity key: a module type, optionally followed by `@` and a version.
#[derive(Debug, Clone, PartialEq, Eq)]
pub struct ADOVersion(String);

impl View for ADOVersion {
    type V = Seq<char>;

    open spec fn view(&self) -> Seq<char> {
        self.text()
    }
}

impl ADOVersion {
    /// The key as text.
    pub closed spec fn text(&self) -> Seq<char> {
        self.0@
    }

    /// The key as a string slice.
    pub fn as_str(&self) -> (r: &str)
        ensures
            r@ == self@,
    {
        self.0.as_str()
    }

    /// The key as an owned string.
    pub fn into_string(self) -> (r: String)
        ensures
            r@ == self@,
    {
        self.0
    }

    /// The identity that `text` spells.
    pub fn from_string(text: &str) -> (r: ADOVersion)
        ensures
            r@ == text@,
    {
        ADOVersion(text.to_owned())
    }

    /// The identity of the latest version of `ado_type`.
    pub fn from_type(ado_type: &str) -> (r: ADOVersion)
        ensures
            r@ == ado_type@,
    {
        ADOVersion(ado_type.to_owned())
    }

    /// The same module type at `version`; a version that the key already
    /// carried is dropped.
    pub fn with_version(&self, version: &str) -> (r: ADOVersion)
        ensures
            r@ == compose(type_of(self@), version@),
    {
        let mut key = self.get_type();
        key.append("@");
        key.append(version);
        proof {
            reveal_strlit("@");
            assert("@"@ =~= seq!['@']);
        }
        ADOVersion(key)
    }

    /// The module type that the key names.
    pub fn get_type(&self) -> (r: String)
        ensures
            r@ == type_of(self@),
    {
        let text = self.0.as_str();
        let at = find_separator(text);
        text.substring_char(0, at).to_owned()
    }

    /// The version that the key names, `latest` where it names none.
    pub fn get_version(&self) -> (r: String)
        ensures
            r@ == version_of(self@),
    {
        let text = self.0.as_str();
        let n = text.unicode_len();
        let at = find_separator(text);
        if at < n {
            text.substring_char(at + 1, n).to_owned()
        } else {
            "latest".to_owned()
        }
    }

    /// The module type and the version that the key names.
    pub fn get_tuple(&self) -> (r: (String, String))
        ensures
            r.0@ == type_of(self@),
            r.1@ == version_of(self@),
    {
        (self.get_type(), self.get_version())
    }

    /// Whether the key names a module type and a concrete version of it.
    pub fn validate_strict(&self) -> (r: bool)
        ensures
            r == is_strict(self@),
    {
        let text = self.0.as_str();
        let n = text.unicode_len();
        let at = find_separator(text);
        if at == 0 || at >= n {
            return false;
        }
        let version = text.substring_char(at + 1, n);
        version.unicode_len() > 0 && !same_text(version, "latest")
    }
}

} // verus!
