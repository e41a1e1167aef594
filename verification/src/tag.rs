//! The tag decoder: turns one `key[=value]` token from the IRCv3 tags
//! segment into a [`MessageTag`].

use vstd::prelude::*;
use vstd::string::StrSliceExecFns;

use crate::message::DecodeError;
use crate::text::find_char;
use crate::text::find_char_in;

verus! {

/// The mathematical value of a [`MessageTag`]: its key and optional value
/// as plain character sequences.
pub ghost struct TagModel {
    pub key: Seq<char>,
    pub value: Option<Seq<char>>,
}

/// What decoding one tag token yields: the text before the first `=` as the
/// key and the text after it as the value, or the whole token as the key
/// with no value when the token holds no `=`. An `=` with nothing after it
/// gives an empty value, which is distinct from an absent one.
pub open spec fn spec_decode_tag(token: Seq<char>) -> TagModel {
    let i = find_char(token, '=');
    if i >= 0 {
        TagModel {
            key: token.subrange(0, i),
            value: Some(token.subrange(i + 1, token.len() as int)),
        }
    } else {
        TagModel { key: token, value: None }
    }
}

/// One IRCv3 message tag: a key with an optional value. The value is absent
/// for boolean-style tags (`key` with no `=`); an empty value (`key=`) is
/// distinct from an absent one.
#[derive(Debug)]
pub struct MessageTag {
    pub key: String,
    pub value: Option<String>,
}

impl View for MessageTag {
    type V = TagModel;

    open spec fn view(&self) -> TagModel {
        TagModel { key: self.key@, value: self.value.deep_view() }
    }
}

impl DeepView for MessageTag {
    type V = TagModel;

    open spec fn deep_view(&self) -> TagModel {
        self@
    }
}

impl MessageTag {
    /// Decode one tag token. The caller must already have split the tags
    /// segment on `;`, so the token carries no tag separator. Every token is
    /// a syntactically valid key, so decoding never fails; the `Result`
    /// shape is kept so that callers treat this decoder like the fallible
    /// message decoder.
    pub fn from_str(s: &str) -> (r: Result<MessageTag, DecodeError>)
        ensures
            r matches Ok(t) && t@ == spec_decode_tag(s@),
    {
        let n = s.unicode_len();
        match find_char_in(s, '=') {
            Some(i) => {
                let key = s.substring_char(0, i).to_owned();
                let value = s.substring_char(i + 1, n).to_owned();
                Ok(MessageTag { key, value: Some(value) })
            },
            None => Ok(MessageTag { key: s.to_owned(), value: None }),
        }
    }
}

/// Two tags are equal exactly when both key and value match.
impl PartialEq for MessageTag {
    fn eq(&self, other: &MessageTag) -> (r: bool) {
        let keys_eq = self.key == other.key;
        let values_eq = match (&self.value, &other.value) {
            (Some(a), Some(b)) => *a == *b,
            (None, None) => true,
            _ => false,
        };
        keys_eq && values_eq
    }
}

impl vstd::std_specs::cmp::PartialEqSpecImpl for MessageTag {
    open spec fn obeys_eq_spec() -> bool {
        true
    }

    open spec fn eq_spec(&self, other: &MessageTag) -> bool {
        self@.key == other@.key && self@.value == other@.value
    }
}

} // verus!
