//! The key locator: reads the encryption key out of a configuration
//! file's text, and picks the first text, in traversal order, that yields
//! a key. A text that fails to parse, lacks the field, or holds a bad key
//! string yields nothing and never ends the search.

use vstd::prelude::*;
use crate::hexkey::{decode_key, spec_decode_key};

verus! {

/// The string held by the named top-level field of a JSON object written
/// in `text`, if `text` is such an object and the field holds a string.
pub uninterp spec fn json_string_field_of(text: Seq<char>, field: Seq<char>) -> Option<Seq<char>>;

/// Relies on serde_json: `from_str::<Value>` parses the text as JSON,
/// `Value::as_object` yields the map of a JSON object and nothing else,
/// `Map::get` looks the field up by name, and `Value::as_str` yields the
/// content of a JSON string and nothing else. All four depend on their
/// arguments alone.
#[verifier::external_body]
fn json_string_field(text: &str, field: &str) -> (r: Option<String>)
    ensures
        (r is Some) == (json_string_field_of(text@, field@) is Some),
        r matches Some(s) ==> json_string_field_of(text@, field@) == Some(s@),
{
    let parsed: serde_json::Value = match serde_json::from_str(text) {
        Ok(v) => v,
        Err(_) => return None,
    };
    let object = match parsed.as_object() {
        Some(m) => m,
        None => return None,
    };
    match object.get(field) {
        Some(value) => match value.as_str() {
            Some(s) => Some(s.to_owned()),
            None => None,
        },
        None => None,
    }
}

/// The key a configuration file's text yields: the decoded value of its
/// `encryptionKey` field, if the field is there and decodes to 16 bytes.
pub open spec fn spec_config_key(text: Seq<char>) -> Option<Seq<u8>> {
    match json_string_field_of(text, "encryptionKey"@) {
        Some(k) => spec_decode_key(k),
        None => None,
    }
}

/// Extract and decode the key from one configuration file's text.
pub fn key_from_config_text(text: &str) -> (r: Option<Vec<u8>>)
    ensures
        r.deep_view() == spec_config_key(text@),
        r matches Some(k) ==> k@.len() == 16,
{
    match json_string_field(text, "encryptionKey") {
        Some(k) => decode_key(k.as_str()),
        None => None,
    }
}

/// The key of the first text that yields one, in order.
pub open spec fn spec_first_key(texts: Seq<Seq<char>>) -> Option<Seq<u8>>
    decreases texts.len(),
{
    if texts.len() == 0 {
        None
    } else {
        match spec_config_key(texts[0]) {
            Some(k) => Some(k),
            None => spec_first_key(texts.drop_first()),
        }
    }
}

proof fn lemma_first_key_skip(texts: Seq<Seq<char>>, i: int)
    requires
        0 <= i <= texts.len(),
        forall|j: int| 0 <= j < i ==> spec_config_key(#[trigger] texts[j]) is None,
    ensures
        spec_first_key(texts) == spec_first_key(texts.skip(i)),
    decreases i,
{
    if i == 0 {
        assert(texts.skip(0) =~= texts);
    } else {
        assert(spec_config_key(texts[0]) is None);
        lemma_first_key_skip(texts.drop_first(), i - 1);
        assert(texts.drop_first().skip(i - 1) =~= texts.skip(i));
    }
}

/// Take the key of the first configuration text that yields one; texts
/// that yield none are passed over without ending the search.
pub fn first_key(texts: &Vec<String>) -> (r: Option<Vec<u8>>)
    ensures
        r.deep_view() == spec_first_key(texts.deep_view()),
        r matches Some(k) ==> k@.len() == 16,
{
    let ghost all = texts.deep_view();
    let mut i: usize = 0;
    while i < texts.len()
        invariant
            i <= texts.len(),
            all == texts.deep_view(),
            all.len() == texts.len(),
            forall|j: int| 0 <= j < i ==> spec_config_key(#[trigger] all[j]) is None,
        decreases texts.len() - i,
    {
        let r = key_from_config_text(texts[i].as_str());
        if r.is_some() {
            proof {
                lemma_first_key_skip(all, i as int);
                assert(all.skip(i as int)[0] == all[i as int]);
            }
            return r;
        }
        i = i + 1;
    }
    proof {
        lemma_first_key_skip(all, texts.len() as int);
        assert(all.skip(texts.len() as int) =~= Seq::<Seq<char>>::empty());
    }
    None
}

/// The first configuration text that yields a key wins: if every text
/// before position `j` yields none and the text at `j` yields a key, the
/// located key is exactly that one — earlier malformed texts never abort
/// the search.
pub proof fn lemma_first_valid_key_wins(texts: Seq<Seq<char>>, j: int)
    requires
        0 <= j < texts.len(),
        spec_config_key(texts[j]) is Some,
        forall|i: int| 0 <= i < j ==> spec_config_key(#[trigger] texts[i]) is None,
    ensures
        spec_first_key(texts) == spec_config_key(texts[j]),
{
    lemma_first_key_skip(texts, j);
    assert(texts.skip(j)[0] == texts[j]);
}

} // verus!
