//! The message decoder: turns one trimmed protocol line into an
//! [`IrcMessage`] (tags, optional prefix, command, parameters) or a
//! [`DecodeError`] naming the segment that was malformed.

use vstd::prelude::*;
use vstd::string::StrSliceExecFns;

use crate::tag::MessageTag;
use crate::tag::TagModel;
use crate::tag::spec_decode_tag;
use crate::text::find_char;
use crate::text::find_char_in;
use crate::text::spec_trim;
use crate::text::split_char;
use crate::text::split_char_str;
use crate::text::split_wsp;
use crate::text::split_wsp_str;
use crate::text::trim_str;

verus! {

/// The segment of a line whose structural expectation was violated. Each
/// variant stands for exactly one failure: [`Self::description`] gives the
/// human-readable account.
#[derive(Clone, Copy, Debug, PartialEq, Eq, Structural)]
pub enum DecodeError {
    /// A `@`-tags segment is present but no space terminates it.
    MalformedTags,
    /// A `:`-prefix segment is present but no space terminates it.
    MalformedPrefix,
    /// No command could be split out of the remaining text: either no space
    /// separates a command from its parameters, or nothing stands before
    /// the first space and the command would be empty.
    MalformedCommand,
}

impl DecodeError {
    /// The description text carried by each failure kind.
    pub open spec fn description_spec(self) -> Seq<char> {
        match self {
            DecodeError::MalformedTags => "Error parsing message tags (invalid format)"@,
            DecodeError::MalformedPrefix => "Error parsing message prefix (invalid format)"@,
            DecodeError::MalformedCommand => "Error parsing message command (invalid format)"@,
        }
    }

    /// A human-readable description of which segment failed and why.
    pub fn description(&self) -> (r: String)
        ensures
            r@ == self.description_spec(),
    {
        match self {
            DecodeError::MalformedTags => "Error parsing message tags (invalid format)".to_owned(),
            DecodeError::MalformedPrefix => "Error parsing message prefix (invalid format)".to_owned(),
            DecodeError::MalformedCommand => "Error parsing message command (invalid format)".to_owned(),
        }
    }
}

/// The mathematical value of an [`IrcMessage`]: every field as plain
/// character sequences.
pub ghost struct MessageModel {
    pub tags: Option<Seq<TagModel>>,
    pub prefix: Option<Seq<char>>,
    pub command: Seq<char>,
    pub params: Option<Seq<Seq<char>>>,
    pub raw: Seq<char>,
}

/// One decoded protocol line.
///
/// `tags` holds the decoded `@...` segment in wire order and is absent when
/// the line carried none; `prefix` is the sender between a leading `:` and
/// the following space, absent when the line carried none; `command` is the
/// verb or numeric; `params` are the parameters in wire order, where the
/// last one may contain embedded spaces when it was introduced by a
/// trailing `:`; `raw_message` retains the trimmed input line verbatim for
/// diagnostics.
#[derive(Debug)]
pub struct IrcMessage {
    pub tags: Option<Vec<MessageTag>>,
    pub prefix: Option<String>,
    pub command: String,
    pub params: Option<Vec<String>>,
    pub raw_message: String,
}

impl View for IrcMessage {
    type V = MessageModel;

    open spec fn view(&self) -> MessageModel {
        MessageModel {
            tags: self.tags.deep_view(),
            prefix: self.prefix.deep_view(),
            command: self.command@,
            params: self.params.deep_view(),
            raw: self.raw_message@,
        }
    }
}

/// Decoding the tags segment: the text between `@` and the terminating
/// space, split on `;`, each token decoded by the tag decoder, in order.
pub open spec fn spec_decode_tags_seg(seg: Seq<char>) -> Seq<TagModel> {
    split_char(seg, ';').map_values(|t: Seq<char>| spec_decode_tag(t))
}

/// Decoding the parameter text that follows the command: everything before
/// the first `:` splits on runs of whitespace into leading parameters, and
/// the text after that `:` is the final trailing parameter, verbatim, with
/// the marker itself stripped. Without a `:` the whole text splits on
/// whitespace.
pub open spec fn spec_decode_params(rest: Seq<char>) -> Seq<Seq<char>> {
    let c = find_char(rest, ':');
    if c >= 0 {
        split_wsp(rest.subrange(0, c)).push(rest.subrange(c + 1, rest.len() as int))
    } else {
        split_wsp(rest)
    }
}

/// The command stage: the text before the first space is the command, the
/// text after it decodes into parameters. Without any space no command can
/// be split out and the line is malformed; so is a remainder whose first
/// character is the space itself, since the command would be empty — a
/// successfully decoded message never carries an empty command.
pub open spec fn spec_decode_stage_command(
    rest: Seq<char>,
    tags: Option<Seq<TagModel>>,
    prefix: Option<Seq<char>>,
    raw: Seq<char>,
) -> Result<MessageModel, DecodeError> {
    let sp = find_char(rest, ' ');
    if sp <= 0 {
        Err(DecodeError::MalformedCommand)
    } else {
        Ok(
            MessageModel {
                tags,
                prefix,
                command: rest.subrange(0, sp),
                params: Some(spec_decode_params(rest.subrange(sp + 1, rest.len() as int))),
                raw,
            },
        )
    }
}

/// The prefix stage: a leading `:` introduces the sender prefix, which the
/// first space terminates; a prefix with no following command is malformed.
pub open spec fn spec_decode_stage_prefix(
    rest: Seq<char>,
    tags: Option<Seq<TagModel>>,
    raw: Seq<char>,
) -> Result<MessageModel, DecodeError> {
    if rest.len() > 0 && rest[0] == ':' {
        let sp = find_char(rest, ' ');
        if sp < 0 {
            Err(DecodeError::MalformedPrefix)
        } else {
            spec_decode_stage_command(
                rest.subrange(sp + 1, rest.len() as int),
                tags,
                Some(rest.subrange(1, sp)),
                raw,
            )
        }
    } else {
        spec_decode_stage_command(rest, tags, None, raw)
    }
}

/// The tags stage: a leading `@` introduces the tags segment, which the
/// first space terminates; a tags segment with no terminating space is
/// malformed.
pub open spec fn spec_decode_stage_tags(raw: Seq<char>) -> Result<MessageModel, DecodeError> {
    if raw.len() > 0 && raw[0] == '@' {
        let sp = find_char(raw, ' ');
        if sp < 0 {
            Err(DecodeError::MalformedTags)
        } else {
            spec_decode_stage_prefix(
                raw.subrange(sp + 1, raw.len() as int),
                Some(spec_decode_tags_seg(raw.subrange(1, sp))),
                raw,
            )
        }
    } else {
        spec_decode_stage_prefix(raw, None, raw)
    }
}

/// What decoding one line yields: the line is trimmed of surrounding
/// whitespace, the trimmed text is retained as `raw`, and the tags, prefix
/// and command stages run in turn.
pub open spec fn spec_decode_message(line: Seq<char>) -> Result<MessageModel, DecodeError> {
    spec_decode_stage_tags(spec_trim(line))
}

impl IrcMessage {
    /// Decode one line of the wire protocol, already separated from the
    /// transport stream and stripped of its CR/LF terminator. Returns the
    /// structured message exactly as [`spec_decode_message`] describes it,
    /// and an error naming the malformed segment on exactly the lines that
    /// the specification rejects. A successfully decoded message never
    /// carries an empty command.
    pub fn from_str(s: &str) -> (r: Result<IrcMessage, DecodeError>)
        ensures
            match r {
                Ok(m) => spec_decode_message(s@) == Ok::<MessageModel, DecodeError>(m@),
                Err(e) => spec_decode_message(s@) == Err::<MessageModel, DecodeError>(e),
            },
            r matches Ok(m) ==> m@.command.len() > 0,
    {
        let trimmed = trim_str(s);
        let raw_message = trimmed.to_owned();
        let n = trimmed.unicode_len();

        let mut tags: Option<Vec<MessageTag>> = None;
        let mut rest: &str = trimmed;
        let mut rest_len: usize = n;

        // Tags segment.
        if n > 0 && trimmed.get_char(0) == '@' {
            match find_char_in(trimmed, ' ') {
                Some(sp) => {
                    let seg = trimmed.substring_char(1, sp);
                    let tokens = split_char_str(seg, ';');
                    let token_count = tokens.len();
                    let mut tv: Vec<MessageTag> = Vec::new();
                    let mut i: usize = 0;
                    while i < token_count
                        invariant
                            i <= token_count,
                            token_count == tokens@.len(),
                            tv@.len() == i,
                            forall|j: int|
                                0 <= j < i ==> tv.deep_view()[j] == spec_decode_tag(
                                    tokens.deep_view()[j],
                                ),
                        decreases token_count - i,
                    {
                        let tag = match MessageTag::from_str(tokens[i].as_str()) {
                            Ok(t) => t,
                            Err(e) => return Err(e),
                        };
                        let ghost pre = tv.deep_view();
                        tv.push(tag);
                        proof {
                            assert(tv.deep_view() =~= pre.push(tag@));
                        }
                        i = i + 1;
                    }
                    proof {
                        assert(tv.deep_view() =~= spec_decode_tags_seg(seg@));
                    }
                    tags = Some(tv);
                    rest = trimmed.substring_char(sp + 1, n);
                    rest_len = n - (sp + 1);
                },
                None => return Err(DecodeError::MalformedTags),
            }
        }
        assert(spec_decode_message(s@) == spec_decode_stage_prefix(
            rest@,
            tags.deep_view(),
            trimmed@,
        ));

        // Prefix segment.
        let mut prefix: Option<String> = None;
        if rest_len > 0 && rest.get_char(0) == ':' {
            match find_char_in(rest, ' ') {
                Some(sp) => {
                    prefix = Some(rest.substring_char(1, sp).to_owned());
                    rest = rest.substring_char(sp + 1, rest_len);
                    rest_len = rest_len - (sp + 1);
                },
                None => return Err(DecodeError::MalformedPrefix),
            }
        }
        assert(spec_decode_message(s@) == spec_decode_stage_command(
            rest@,
            tags.deep_view(),
            prefix.deep_view(),
            trimmed@,
        ));

        // Command and parameters.
        match find_char_in(rest, ' ') {
            Some(sp) => {
                if sp == 0 {
                    return Err(DecodeError::MalformedCommand);
                }
                let command = rest.substring_char(0, sp).to_owned();
                let after = rest.substring_char(sp + 1, rest_len);
                let after_len = rest_len - (sp + 1);
                let params_vec: Vec<String> = match find_char_in(after, ':') {
                    Some(c) => {
                        let ghost expected = spec_decode_params(after@);
                        let mut ps = split_wsp_str(after.substring_char(0, c));
                        let trailing = after.substring_char(c + 1, after_len).to_owned();
                        let ghost leading = ps.deep_view();
                        ps.push(trailing);
                        proof {
                            assert(ps.deep_view() =~= leading.push(trailing@));
                        }
                        ps
                    },
                    None => split_wsp_str(after),
                };
                let msg = IrcMessage {
                    tags,
                    prefix,
                    command,
                    params: Some(params_vec),
                    raw_message,
                };
                Ok(msg)
            },
            None => Err(DecodeError::MalformedCommand),
        }
    }
}

/// Element-wise comparison of two parameter lists by their text.
fn string_vecs_eq(a: &Vec<String>, b: &Vec<String>) -> (r: bool)
    ensures
        r == (a.deep_view() == b.deep_view()),
{
    if a.len() != b.len() {
        assert(a.deep_view().len() != b.deep_view().len());
        return false;
    }
    let n = a.len();
    let mut i: usize = 0;
    while i < n
        invariant
            i <= n,
            n == a@.len() == b@.len(),
            forall|j: int| 0 <= j < i ==> a@[j]@ == b@[j]@,
        decreases n - i,
    {
        if !(a[i] == b[i]) {
            assert(a.deep_view()[i as int] != b.deep_view()[i as int]);
            return false;
        }
        i = i + 1;
    }
    proof {
        assert(a.deep_view() =~= b.deep_view());
    }
    true
}

/// Messages compare by `(prefix, command, params)`. By a deliberate design
/// decision, `tags` and `raw_message` are informational and take no part in
/// equality.
impl PartialEq for IrcMessage {
    fn eq(&self, other: &IrcMessage) -> (r: bool) {
        let prefix_eq = match (&self.prefix, &other.prefix) {
            (Some(a), Some(b)) => *a == *b,
            (None, None) => true,
            _ => false,
        };
        if !prefix_eq {
            return false;
        }
        if !(self.command == other.command) {
            return false;
        }
        match (&self.params, &other.params) {
            (Some(a), Some(b)) => string_vecs_eq(a, b),
            (None, None) => true,
            _ => false,
        }
    }
}

impl vstd::std_specs::cmp::PartialEqSpecImpl for IrcMessage {
    open spec fn obeys_eq_spec() -> bool {
        true
    }

    open spec fn eq_spec(&self, other: &IrcMessage) -> bool {
        self@.prefix == other@.prefix && self@.command == other@.command && self@.params
            == other@.params
    }
}

} // verus!
