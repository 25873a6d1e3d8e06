//! The plaintext form of a credential record: a JSON object with the
//! members `username`, `password` and `url`, each a string.

use super::error::{StorageError, StorageErrorView};
use super::item::{Credentials, CredentialsView};
use vstd::prelude::*;
use vstd::string::*;

verus! {

/// The JSON text that `serde_json` writes for an object with the given
/// string members, or the text of its failure.
pub uninterp spec fn json_object_text(members: Map<Seq<char>, Seq<char>>) -> Result<
    Seq<u8>,
    Seq<char>,
>;

/// The members of the JSON object of strings that `serde_json` reads from
/// the given text, or the text of its failure.
pub uninterp spec fn json_object_members(text: Seq<u8>) -> Result<
    Map<Seq<char>, Seq<char>>,
    Seq<char>,
>;

/// The object that a list of members stands for. Where a name occurs more
/// than once, the last occurrence counts.
pub open spec fn object_of(members: Seq<(String, String)>) -> Map<Seq<char>, Seq<char>>
    decreases members.len(),
{
    if members.len() == 0 {
        Map::empty()
    } else {
        object_of(members.drop_last()).insert(members.last().0@, members.last().1@)
    }
}

/// No name occurs twice among the members.
pub open spec fn distinct_names(members: Seq<(String, String)>) -> bool {
    forall|i: int, j: int| 0 <= i < j < members.len() ==> members[i].0@ != members[j].0@
}

/// Calls `serde_json::to_vec` on a map made of the members. Trusted: what
/// is written depends on the object alone, and `serde_json::from_slice`
/// reads the same object back from it.
#[verifier::external_body]
fn json_encode_object(members: &Vec<(String, String)>) -> (res: Result<Vec<u8>, String>)
    requires
        distinct_names(members@),
    ensures
        res matches Ok(text) ==> (json_object_text(object_of(members@)) matches Ok(written)
            && written == text@),
        res matches Ok(text) ==> (json_object_members(text@) matches Ok(object) && object
            == object_of(members@)),
        res matches Err(failure) ==> (json_object_text(object_of(members@)) matches Err(reported)
            && reported == failure@),
{
    let object: std::collections::BTreeMap<&str, &str> = members.iter().map(
        |member| (member.0.as_str(), member.1.as_str()),
    ).collect();
    serde_json::to_vec(&object).map_err(|e| e.to_string())
}

/// Calls `serde_json::from_slice` for a map from strings to strings, and
/// lists the members that it read. Trusted: the result depends on the text
/// alone.
#[verifier::external_body]
fn json_decode_object(text: &[u8]) -> (res: Result<Vec<(String, String)>, String>)
    ensures
        res matches Ok(members) ==> (json_object_members(text@) matches Ok(object) && object
            == object_of(members@)),
        res matches Err(failure) ==> (json_object_members(text@) matches Err(reported) && reported
            == failure@),
{
    let object: std::collections::BTreeMap<String, String> = serde_json::from_slice(text).map_err(
        |e| e.to_string(),
    )?;
    Ok(object.into_iter().collect())
}

/// The object that stands for a credential record.
pub open spec fn credentials_members(credentials: CredentialsView) -> Map<Seq<char>, Seq<char>> {
    Map::empty().insert("username"@, credentials.username).insert(
        "password"@,
        credentials.password,
    ).insert("url"@, credentials.url)
}

/// The credential record that an object stands for: its three members,
/// whatever else it holds. The first of the three that is missing is
/// reported.
pub open spec fn credentials_of(members: Map<Seq<char>, Seq<char>>) -> Result<
    CredentialsView,
    StorageErrorView,
> {
    if !members.contains_key("username"@) {
        Err(StorageErrorView::Serialization("missing field `username`"@))
    } else if !members.contains_key("password"@) {
        Err(StorageErrorView::Serialization("missing field `password`"@))
    } else if !members.contains_key("url"@) {
        Err(StorageErrorView::Serialization("missing field `url`"@))
    } else {
        Ok(
            CredentialsView {
                username: members["username"@],
                password: members["password"@],
                url: members["url"@],
            },
        )
    }
}

/// The plaintext of a credential record.
pub open spec fn encoded(credentials: CredentialsView) -> Result<Seq<u8>, StorageErrorView> {
    match json_object_text(credentials_members(credentials)) {
        Ok(text) => Ok(text),
        Err(failure) => Err(StorageErrorView::Serialization(failure)),
    }
}

/// The credential record that a plaintext holds.
pub open spec fn decoded(plaintext: Seq<u8>) -> Result<CredentialsView, StorageErrorView> {
    match json_object_members(plaintext) {
        Ok(members) => credentials_of(members),
        Err(failure) => Err(StorageErrorView::Serialization(failure)),
    }
}

/// The three member names differ from each other.
proof fn lemma_names_differ()
    ensures
        "username"@ != "password"@,
        "username"@ != "url"@,
        "password"@ != "url"@,
{
    reveal_strlit("username");
    reveal_strlit("password");
    reveal_strlit("url");
    assert("username"@[0] != "password"@[0]);
    assert("url"@.len() == 3 && "username"@.len() == 8 && "password"@.len() == 8);
}

/// The object of a credential record stands for that record.
pub proof fn lemma_members_round_trip(credentials: CredentialsView)
    ensures
        credentials_of(credentials_members(credentials)) == Ok::<
            CredentialsView,
            StorageErrorView,
        >(credentials),
{
    lemma_names_differ();
}

/// The last member of that name decides what the object holds under it.
proof fn lemma_object_member(members: Seq<(String, String)>, name: Seq<char>, at: int)
    requires
        0 <= at < members.len(),
        members[at].0@ == name,
        forall|after: int| at < after < members.len() ==> members[after].0@ != name,
    ensures
        object_of(members).contains_key(name),
        object_of(members)[name] == members[at].1@,
    decreases members.len(),
{
    if at < members.len() - 1 {
        lemma_object_member(members.drop_last(), name, at);
    }
}

/// An object holds nothing under a name that no member has.
proof fn lemma_object_no_member(members: Seq<(String, String)>, name: Seq<char>)
    requires
        forall|at: int| 0 <= at < members.len() ==> members[at].0@ != name,
    ensures
        !object_of(members).contains_key(name),
    decreases members.len(),
{
    if members.len() > 0 {
        lemma_object_no_member(members.drop_last(), name);
    }
}

/// The value of the member called `name`, if the object has one.
fn member(members: &Vec<(String, String)>, name: &str) -> (found: Option<String>)
    ensures
        match found {
            Some(value) => object_of(members@).contains_key(name@) && object_of(members@)[name@]
                == value@,
            None => !object_of(members@).contains_key(name@),
        },
{
    let wanted = String::from_str(name);
    let mut at: usize = members.len();
    while at > 0
        invariant
            at <= members@.len(),
            wanted@ == name@,
            forall|after: int| at <= after < members@.len() ==> members@[after].0@ != name@,
        decreases at,
    {
        at -= 1;
        if members[at].0 == wanted {
            proof {
                lemma_object_member(members@, name@, at as int);
            }
            return Some(members[at].1.clone());
        }
    }
    proof {
        lemma_object_no_member(members@, name@);
    }
    None
}

/// Writes a credential record as its plaintext.
pub fn encode_credentials(credentials: &Credentials) -> (res: Result<Vec<u8>, StorageError>)
    ensures
        match encoded(credentials@) {
            Ok(plaintext) => res matches Ok(found) && found@ == plaintext,
            Err(failure) => res matches Err(e) && e@ == failure,
        },
        res matches Ok(found) ==> decoded(found@) == Ok::<CredentialsView, StorageErrorView>(
            credentials@,
        ),
{
    let mut members: Vec<(String, String)> = Vec::new();
    members.push((String::from_str("username"), credentials.username.clone()));
    members.push((String::from_str("password"), credentials.password.clone()));
    members.push((String::from_str("url"), credentials.url.clone()));
    proof {
        reveal_with_fuel(object_of, 4);
        assert(members@.drop_last().drop_last().drop_last() =~= Seq::empty());
        assert(object_of(members@) == credentials_members(credentials@));
        lemma_members_round_trip(credentials@);
        lemma_names_differ();
    }
    match json_encode_object(&members) {
        Ok(plaintext) => Ok(plaintext),
        Err(failure) => Err(StorageError::Serialization(failure)),
    }
}

/// Reads a credential record from its plaintext.
pub fn decode_credentials(plaintext: &[u8]) -> (res: Result<Credentials, StorageError>)
    ensures
        match decoded(plaintext@) {
            Ok(credentials) => res matches Ok(found) && found@ == credentials,
            Err(failure) => res matches Err(e) && e@ == failure,
        },
{
    let members = match json_decode_object(plaintext) {
        Ok(members) => members,
        Err(failure) => { return Err(StorageError::Serialization(failure)); },
    };
    let username = match member(&members, "username") {
        Some(value) => value,
        None => {
            return Err(StorageError::Serialization(String::from_str("missing field `username`")));
        },
    };
    let password = match member(&members, "password") {
        Some(value) => value,
        None => {
            return Err(StorageError::Serialization(String::from_str("missing field `password`")));
        },
    };
    let url = match member(&members, "url") {
        Some(value) => value,
        None => {
            return Err(StorageError::Serialization(String::from_str("missing field `url`")));
        },
    };
    Ok(Credentials { username, password, url })
}

} // verus!
