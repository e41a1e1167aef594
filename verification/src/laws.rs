//! Laws of the decoder, stated and proved over [`spec_decode_message`]:
//! the round-trip identity for well-formed lines, preservation of literal
//! `:` characters inside a trailing parameter, the stripping of the
//! trailing marker itself, and the three failure cases.

use vstd::prelude::*;

use crate::message::DecodeError;
use crate::message::MessageModel;
use crate::message::spec_decode_message;
use crate::message::spec_decode_stage_command;
use crate::message::spec_decode_stage_prefix;
use crate::message::spec_decode_tags_seg;
use crate::tag::TagModel;
use crate::text::find_char;
use crate::text::is_wsp;
use crate::text::lemma_find_char_absent;
use crate::text::lemma_find_char_props;
use crate::text::lemma_find_char_at;
use crate::text::lemma_split_wsp_token;
use crate::text::lemma_trim_noop;
use crate::text::spec_trim;
use crate::text::split_wsp;

verus! {

/// The wire form `:prefix COMMAND p1 p2 :trailing`: a `:`-marked sender
/// prefix, a command, two middle parameters and a trailing parameter.
pub open spec fn wire_line(
    prefix: Seq<char>,
    command: Seq<char>,
    p1: Seq<char>,
    p2: Seq<char>,
    trailing: Seq<char>,
) -> Seq<char> {
    seq![':'] + prefix + seq![' '] + command + seq![' '] + p1 + seq![' '] + p2 + seq![' ', ':']
        + trailing
}

/// Round-trip identity: decoding a line built from a prefix, a command, two
/// middle parameters and a trailing parameter yields exactly those
/// components back — the prefix, the command and the parameter list, with
/// the trailing parameter verbatim (spaces and all), and the whole line as
/// `raw`. The components must be such that the line is well formed: no
/// whitespace inside the prefix or the non-empty command, no whitespace and
/// no `:` inside the non-empty middle parameters, and no whitespace at the
/// very end of the trailing parameter (trimming would drop it).
pub proof fn lemma_round_trip(
    prefix: Seq<char>,
    command: Seq<char>,
    p1: Seq<char>,
    p2: Seq<char>,
    trailing: Seq<char>,
)
    requires
        forall|j: int| 0 <= j < prefix.len() ==> !is_wsp(#[trigger] prefix[j]),
        command.len() > 0,
        forall|j: int| 0 <= j < command.len() ==> !is_wsp(#[trigger] command[j]),
        p1.len() > 0,
        forall|j: int| 0 <= j < p1.len() ==> !is_wsp(#[trigger] p1[j]) && p1[j] != ':',
        p2.len() > 0,
        forall|j: int| 0 <= j < p2.len() ==> !is_wsp(#[trigger] p2[j]) && p2[j] != ':',
        trailing.len() > 0 ==> !is_wsp(trailing[trailing.len() - 1]),
    ensures
        spec_decode_message(wire_line(prefix, command, p1, p2, trailing)) == Ok::<
            MessageModel,
            DecodeError,
        >(
            MessageModel {
                tags: None,
                prefix: Some(prefix),
                command: command,
                params: Some(seq![p1, p2, trailing]),
                raw: wire_line(prefix, command, p1, p2, trailing),
            },
        ),
{
    let line = wire_line(prefix, command, p1, p2, trailing);
    let after = p1 + seq![' '] + p2 + seq![' ', ':'] + trailing;
    let rest1 = command + seq![' '] + after;
    let lead = p1 + seq![' '] + p2 + seq![' '];

    // The line needs no trimming: it starts with `:` and ends with the last
    // character of the trailing parameter, or with `:` when that is empty.
    assert(line.len() > 0);
    assert(line[0] == ':');
    if trailing.len() > 0 {
        assert(line[line.len() - 1] == trailing[trailing.len() - 1]);
    } else {
        assert(line[line.len() - 1] == ':');
    }
    lemma_trim_noop(line);

    // Prefix stage: the first space stands right after the prefix.
    let sp1 = 1 + prefix.len() as int;
    assert(line[sp1] == ' ');
    assert forall|j: int| 0 <= j < sp1 implies line[j] != ' ' by {
        if j >= 1 {
            assert(line[j] == prefix[j - 1]);
        }
    }
    lemma_find_char_at(line, ' ', sp1);
    assert(line.subrange(1, sp1) =~= prefix);
    assert(line.subrange(sp1 + 1, line.len() as int) =~= rest1);

    // Command stage: the first space of the remainder stands right after
    // the command.
    let sp2 = command.len() as int;
    assert(rest1[sp2] == ' ');
    assert forall|j: int| 0 <= j < sp2 implies rest1[j] != ' ' by {
        assert(rest1[j] == command[j]);
    }
    lemma_find_char_at(rest1, ' ', sp2);
    assert(rest1.subrange(0, sp2) =~= command);
    assert(rest1.subrange(sp2 + 1, rest1.len() as int) =~= after);

    // Parameters: the first `:` of the remainder is the trailing marker.
    let c = p1.len() + 1 + p2.len() + 1 as int;
    assert(after[c] == ':');
    assert forall|j: int| 0 <= j < c implies after[j] != ':' by {
        if j < p1.len() {
            assert(after[j] == p1[j]);
        } else if j == p1.len() {
            assert(after[j] == ' ');
        } else if j < p1.len() + 1 + p2.len() {
            assert(after[j] == p2[j - p1.len() - 1]);
        } else {
            assert(after[j] == ' ');
        }
    }
    lemma_find_char_at(after, ':', c);
    assert(after.subrange(0, c) =~= lead);
    assert(after.subrange(c + 1, after.len() as int) =~= trailing);

    // The leading parameters split on whitespace into exactly `p1`, `p2`.
    let tail1 = seq![' '] + p2 + seq![' '];
    assert(lead =~= p1 + tail1);
    lemma_split_wsp_token(p1, tail1);
    let tail2 = p2 + seq![' '];
    assert(tail1.subrange(1, tail1.len() as int) =~= tail2);
    lemma_split_wsp_token(p2, seq![' ']);
    assert(seq![' '].subrange(1, 1) =~= Seq::<char>::empty());
    assert(split_wsp(seq![' ']) == split_wsp(Seq::<char>::empty()));
    assert(split_wsp(lead) =~= seq![p1, p2]);

    assert(split_wsp(lead).push(trailing) =~= seq![p1, p2, trailing]);
}

/// A trailing parameter containing a literal `:` keeps that character
/// verbatim: only the first `:` after the command delimits the trailing
/// segment, so a `:` at position `k` of the trailing text is still at
/// position `k` of the decoded final parameter.
pub proof fn lemma_trailing_colon_preserved(
    prefix: Seq<char>,
    command: Seq<char>,
    p1: Seq<char>,
    p2: Seq<char>,
    trailing: Seq<char>,
    k: int,
)
    requires
        forall|j: int| 0 <= j < prefix.len() ==> !is_wsp(#[trigger] prefix[j]),
        command.len() > 0,
        forall|j: int| 0 <= j < command.len() ==> !is_wsp(#[trigger] command[j]),
        p1.len() > 0,
        forall|j: int| 0 <= j < p1.len() ==> !is_wsp(#[trigger] p1[j]) && p1[j] != ':',
        p2.len() > 0,
        forall|j: int| 0 <= j < p2.len() ==> !is_wsp(#[trigger] p2[j]) && p2[j] != ':',
        !is_wsp(trailing[trailing.len() - 1]),
        0 <= k < trailing.len(),
        trailing[k] == ':',
    ensures
        spec_decode_message(wire_line(prefix, command, p1, p2, trailing)) matches Ok(m)
            && m.params matches Some(ps) && ps.last() == trailing && ps.last()[k] == ':',
{
    lemma_round_trip(prefix, command, p1, p2, trailing);
}

/// The decoded parameters never retain the leading `:` marker of the
/// trailing segment: the final parameter is the text after the marker, not
/// the marker and the text.
pub proof fn lemma_trailing_marker_stripped(
    prefix: Seq<char>,
    command: Seq<char>,
    p1: Seq<char>,
    p2: Seq<char>,
    trailing: Seq<char>,
)
    requires
        forall|j: int| 0 <= j < prefix.len() ==> !is_wsp(#[trigger] prefix[j]),
        command.len() > 0,
        forall|j: int| 0 <= j < command.len() ==> !is_wsp(#[trigger] command[j]),
        p1.len() > 0,
        forall|j: int| 0 <= j < p1.len() ==> !is_wsp(#[trigger] p1[j]) && p1[j] != ':',
        p2.len() > 0,
        forall|j: int| 0 <= j < p2.len() ==> !is_wsp(#[trigger] p2[j]) && p2[j] != ':',
        trailing.len() > 0 ==> !is_wsp(trailing[trailing.len() - 1]),
    ensures
        spec_decode_message(wire_line(prefix, command, p1, p2, trailing)) matches Ok(m)
            && m.params matches Some(ps) && ps.last() == trailing && ps.last() != seq![':']
            + trailing,
{
    lemma_round_trip(prefix, command, p1, p2, trailing);
    assert((seq![':'] + trailing).len() == trailing.len() + 1);
}

proof fn lemma_stage_command_nonempty(
    rest: Seq<char>,
    tags: Option<Seq<TagModel>>,
    prefix: Option<Seq<char>>,
    raw: Seq<char>,
)
    ensures
        spec_decode_stage_command(rest, tags, prefix, raw) matches Ok(m) ==> m.command.len() > 0,
{
    let sp = find_char(rest, ' ');
    if sp > 0 {
        lemma_find_char_props(rest, ' ');
        assert(rest.subrange(0, sp).len() == sp);
    }
}

proof fn lemma_stage_prefix_command_nonempty(
    rest: Seq<char>,
    tags: Option<Seq<TagModel>>,
    raw: Seq<char>,
)
    ensures
        spec_decode_stage_prefix(rest, tags, raw) matches Ok(m) ==> m.command.len() > 0,
{
    if rest.len() > 0 && rest[0] == ':' {
        let sp = find_char(rest, ' ');
        if sp >= 0 {
            lemma_stage_command_nonempty(
                rest.subrange(sp + 1, rest.len() as int),
                tags,
                Some(rest.subrange(1, sp)),
                raw,
            );
        }
    } else {
        lemma_stage_command_nonempty(rest, tags, None, raw);
    }
}

/// The command is never empty on success: whatever the line, a decoded
/// message carries a command of at least one character, because the command
/// stage rejects a remainder whose first space leaves nothing before it.
pub proof fn lemma_command_nonempty(line: Seq<char>)
    ensures
        spec_decode_message(line) matches Ok(m) ==> m.command.len() > 0,
{
    let raw = spec_trim(line);
    if raw.len() > 0 && raw[0] == '@' {
        let sp = find_char(raw, ' ');
        if sp >= 0 {
            lemma_stage_prefix_command_nonempty(
                raw.subrange(sp + 1, raw.len() as int),
                Some(spec_decode_tags_seg(raw.subrange(1, sp))),
                raw,
            );
        }
    } else {
        lemma_stage_prefix_command_nonempty(raw, None, raw);
    }
}

/// Failure case: a line whose trimmed text starts with `@` but holds no
/// space fails with `MalformedTags`.
pub proof fn lemma_tags_unterminated(line: Seq<char>)
    requires
        spec_trim(line).len() > 0,
        spec_trim(line)[0] == '@',
        forall|j: int| 0 <= j < spec_trim(line).len() ==> spec_trim(line)[j] != ' ',
    ensures
        spec_decode_message(line) == Err::<MessageModel, DecodeError>(DecodeError::MalformedTags),
{
    lemma_find_char_absent(spec_trim(line), ' ');
}

/// Failure case: a line whose trimmed text starts with `:` but holds no
/// space fails with `MalformedPrefix`.
pub proof fn lemma_prefix_unterminated(line: Seq<char>)
    requires
        spec_trim(line).len() > 0,
        spec_trim(line)[0] == ':',
        forall|j: int| 0 <= j < spec_trim(line).len() ==> spec_trim(line)[j] != ' ',
    ensures
        spec_decode_message(line) == Err::<MessageModel, DecodeError>(DecodeError::MalformedPrefix),
{
    lemma_find_char_absent(spec_trim(line), ' ');
}

/// Failure case: a line whose trimmed text holds no space at all, and opens
/// no tags or prefix segment, fails with `MalformedCommand` — a bare
/// single-token line cannot be split into command and parameters.
pub proof fn lemma_command_unseparated(line: Seq<char>)
    requires
        spec_trim(line).len() > 0 ==> spec_trim(line)[0] != '@' && spec_trim(line)[0] != ':',
        forall|j: int| 0 <= j < spec_trim(line).len() ==> spec_trim(line)[j] != ' ',
    ensures
        spec_decode_message(line) == Err::<MessageModel, DecodeError>(
            DecodeError::MalformedCommand,
        ),
{
    lemma_find_char_absent(spec_trim(line), ' ');
}

} // verus!
