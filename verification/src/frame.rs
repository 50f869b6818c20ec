//! The frame: the fixed-size unit that the two endpoints exchange.
//!
//! A frame reads `<tag>:<move code>:<status code>:<board>:<padding>`. The tag
//! is the literal `ChessMOVE`, the padding is made of `0` bytes and fills the
//! frame up to its size, and no field holds a colon.

use vstd::prelude::*;
use crate::board::{
    lemma_placement_shape, placement, placement_byte, BoardSnapshot, Piece, SQUARES,
};
use crate::error::{EncodingOverflow, ProtocolError};
use crate::moves::{encode_move, move_code, Move};
use crate::status::GameStatusCode;

verus! {

/// The colon between two fields.
pub const SEPARATOR: u8 = 58;

/// The `0` that fills a frame up.
pub const PADDING: u8 = 48;

/// The size of a frame where nothing else is configured.
pub const FRAME_SIZE: usize = 128;

/// The length of the protocol tag.
pub const TAG_LEN: usize = 9;

/// The bytes of a frame that belong to no field: the tag and four colons.
pub const FRAME_OVERHEAD: usize = 13;

/// The most that a message takes before it is padded: the tag, a move code,
/// a status code, the longest placement string and four colons.
pub const MAX_MESSAGE_LEN: usize = 92;

/// The protocol tag, `ChessMOVE`.
pub open spec fn protocol_tag() -> Seq<u8> {
    seq![67u8, 104u8, 101u8, 115u8, 115u8, 77u8, 79u8, 86u8, 69u8]
}

/// `count` padding bytes.
pub open spec fn padding(count: nat) -> Seq<u8> {
    Seq::new(count, |i: int| PADDING)
}

/// A frame before it is padded: the tag and the three fields, a colon after
/// each.
pub open spec fn frame_body(
    move_code: Seq<u8>,
    status_code: Seq<u8>,
    board_string: Seq<u8>,
) -> Seq<u8> {
    protocol_tag() + seq![SEPARATOR] + move_code + seq![SEPARATOR] + status_code + seq![SEPARATOR]
        + board_string + seq![SEPARATOR]
}

/// The fields, the tag and the colons fit into a frame of `frame_size` bytes.
pub open spec fn fits(
    move_code: Seq<u8>,
    status_code: Seq<u8>,
    board_string: Seq<u8>,
    frame_size: nat,
) -> bool {
    FRAME_OVERHEAD + move_code.len() + status_code.len() + board_string.len() <= frame_size
}

/// The frame of `frame_size` bytes that carries the three fields.
pub open spec fn framed(
    move_code: Seq<u8>,
    status_code: Seq<u8>,
    board_string: Seq<u8>,
    frame_size: nat,
) -> Seq<u8> {
    let body = frame_body(move_code, status_code, board_string);
    body + padding((frame_size - body.len()) as nat)
}

/// The protocol tag.
pub fn tag() -> (tag: Vec<u8>)
    ensures
        tag@ == protocol_tag(),
{
    let mut tag: Vec<u8> = Vec::new();
    tag.push(67);
    tag.push(104);
    tag.push(101);
    tag.push(115);
    tag.push(115);
    tag.push(77);
    tag.push(79);
    tag.push(86);
    tag.push(69);
    assert(tag@ =~= protocol_tag());
    tag
}

/// Appends the bytes of `field` to `out`.
pub(crate) fn append(out: &mut Vec<u8>, field: &[u8])
    ensures
        final(out)@ == old(out)@ + field@,
{
    let mut i: usize = 0;
    while i < field.len()
        invariant
            i <= field@.len(),
            out@ == old(out)@ + field@.take(i as int),
        decreases field@.len() - i,
    {
        out.push(field[i]);
        i += 1;
        assert(out@ =~= old(out)@ + field@.take(i as int));
    }
    assert(field@.take(field@.len() as int) =~= field@);
}

/// Builds the frame of `frame_size` bytes that carries the three fields, or
/// reports that they do not fit.
pub fn encode_frame(
    move_code: &[u8],
    status_code: &[u8],
    board_string: &[u8],
    frame_size: usize,
) -> (encoded: Result<Vec<u8>, EncodingOverflow>)
    ensures
        encoded is Ok <==> fits(move_code@, status_code@, board_string@, frame_size as nat),
        encoded matches Ok(frame) ==> frame@ == framed(
            move_code@,
            status_code@,
            board_string@,
            frame_size as nat,
        ) && frame@.len() == frame_size,
{
    if frame_size < FRAME_OVERHEAD {
        return Err(EncodingOverflow);
    }
    let mut room: usize = frame_size - FRAME_OVERHEAD;
    if move_code.len() > room {
        return Err(EncodingOverflow);
    }
    room -= move_code.len();
    if status_code.len() > room {
        return Err(EncodingOverflow);
    }
    room -= status_code.len();
    if board_string.len() > room {
        return Err(EncodingOverflow);
    }
    room -= board_string.len();
    let mut frame = tag();
    frame.push(SEPARATOR);
    append(&mut frame, move_code);
    frame.push(SEPARATOR);
    append(&mut frame, status_code);
    frame.push(SEPARATOR);
    append(&mut frame, board_string);
    frame.push(SEPARATOR);
    let ghost body = frame_body(move_code@, status_code@, board_string@);
    assert(frame@ =~= body);
    let mut filled: usize = 0;
    while filled < room
        invariant
            filled <= room,
            frame@ == body + padding(filled as nat),
        decreases room - filled,
    {
        frame.push(PADDING);
        filled += 1;
        assert(frame@ =~= body + padding(filled as nat));
    }
    Ok(frame)
}

/// Builds the frame that tells the peer of a move: its code, the status of
/// the game after it and the board after it. From 92 bytes on a frame holds
/// every such message.
pub fn encode_message(
    mv: Move,
    status: GameStatusCode,
    board: &BoardSnapshot,
    frame_size: usize,
) -> (encoded: Result<Vec<u8>, EncodingOverflow>)
    ensures
        encoded is Ok <==> fits(move_code(mv), status.wire(), placement(board@), frame_size as nat),
        encoded matches Ok(frame) ==> frame@ == framed(
            move_code(mv),
            status.wire(),
            placement(board@),
            frame_size as nat,
        ) && frame@.len() == frame_size,
        frame_size >= MAX_MESSAGE_LEN ==> encoded is Ok,
{
    let move_code = encode_move(mv);
    let status_code = status.to_wire();
    let board_string = board.to_placement_string();
    encode_frame(move_code.as_slice(), status_code.as_slice(), board_string.as_slice(), frame_size)
}

/// The frame without the padding at its end.
pub open spec fn trim_padding(frame: Seq<u8>) -> Seq<u8>
    decreases frame.len(),
{
    if frame.len() > 0 && frame.last() == PADDING {
        trim_padding(frame.drop_last())
    } else {
        frame
    }
}

/// The index of the first colon of a text, or its length if it holds none.
pub open spec fn first_separator(text: Seq<u8>) -> int
    decreases text.len(),
{
    if text.len() == 0 || text[0] == SEPARATOR {
        0
    } else {
        1 + first_separator(text.drop_first())
    }
}

/// The parts into which the colons of a text split it. A text without a
/// colon is one part, and so is the empty text.
pub open spec fn split_fields(text: Seq<u8>) -> Seq<Seq<u8>>
    decreases text.len(),
{
    let cut = first_separator(text);
    if 0 <= cut < text.len() {
        seq![text.take(cut)] + split_fields(text.skip(cut + 1))
    } else {
        seq![text]
    }
}

/// A text that holds no colon.
pub open spec fn no_separator(text: Seq<u8>) -> bool {
    forall|i: int| 0 <= i < text.len() ==> text[i] != SEPARATOR
}

/// What a received frame carries: its move code, its status code and its
/// board string. The padding at the end is dropped and the rest split at the
/// colons. A frame of fewer than four parts is refused, and so is one whose
/// first part is not the protocol tag. Parts after the fourth are not read.
pub open spec fn decoded_frame(frame: Seq<u8>) -> Result<
    (Seq<u8>, Seq<u8>, Seq<u8>),
    ProtocolError,
> {
    let parts = split_fields(trim_padding(frame));
    if parts.len() < 4 {
        Err(ProtocolError::TooFewFields)
    } else if parts[0] != protocol_tag() {
        Err(ProtocolError::UnknownTag)
    } else {
        Ok((parts[1], parts[2], parts[3]))
    }
}

/// The byte strings that the vectors of `parts` hold.
spec fn views(parts: Seq<Vec<u8>>) -> Seq<Seq<u8>> {
    parts.map_values(|part: Vec<u8>| part@)
}

/// Whether two byte strings are equal.
pub(crate) fn same_bytes(left: &[u8], right: &[u8]) -> (same: bool)
    ensures
        same == (left@ == right@),
{
    if left.len() != right.len() {
        return false;
    }
    let mut i: usize = 0;
    while i < left.len()
        invariant
            i <= left@.len(),
            left@.len() == right@.len(),
            forall|k: int| 0 <= k < i ==> left@[k] == right@[k],
        decreases left@.len() - i,
    {
        if left[i] != right[i] {
            return false;
        }
        i += 1;
    }
    assert(left@ =~= right@);
    true
}

/// Where no colon stands before index `upto`, the first colon stands at
/// `upto` or after it: at `upto` if a colon stands there or the text ends
/// there.
pub proof fn lemma_first_separator(text: Seq<u8>, upto: int)
    requires
        0 <= upto <= text.len(),
        forall|i: int| 0 <= i < upto ==> text[i] != SEPARATOR,
    ensures
        upto <= first_separator(text) <= text.len(),
        upto == text.len() || text[upto] == SEPARATOR ==> first_separator(text) == upto,
    decreases text.len(),
{
    if text.len() == 0 || text[0] == SEPARATOR {
    } else {
        let rest = text.drop_first();
        if upto == 0 {
            lemma_first_separator(rest, 0);
        } else {
            assert forall|i: int| 0 <= i < upto - 1 implies rest[i] != SEPARATOR by {
                assert(rest[i] == text[i + 1]);
            }
            lemma_first_separator(rest, upto - 1);
        }
    }
}

/// The length of a frame without the padding at its end.
fn trimmed_len(frame: &[u8]) -> (len: usize)
    ensures
        len <= frame@.len(),
        frame@.take(len as int) == trim_padding(frame@),
{
    let mut len: usize = frame.len();
    assert(frame@.take(len as int) =~= frame@);
    while len > 0 && frame[len - 1] == PADDING
        invariant
            len <= frame@.len(),
            trim_padding(frame@.take(len as int)) == trim_padding(frame@),
        decreases len,
    {
        assert(frame@.take(len as int).drop_last() =~= frame@.take(len - 1));
        len -= 1;
    }
    len
}

/// Splits the first `end` bytes of a text at its colons.
fn split(text: &[u8], end: usize) -> (parts: Vec<Vec<u8>>)
    requires
        end <= text@.len(),
    ensures
        views(parts@) == split_fields(text@.take(end as int)),
{
    let ghost whole = text@.take(end as int);
    let mut parts: Vec<Vec<u8>> = Vec::new();
    let mut field: Vec<u8> = Vec::new();
    let ghost mut start: int = 0;
    let mut i: usize = 0;
    assert(whole.skip(0) =~= whole);
    assert(views(parts@) + split_fields(whole.skip(0)) =~= split_fields(whole));
    while i < end
        invariant
            0 <= start <= i <= end <= text@.len(),
            whole == text@.take(end as int),
            field@ == whole.subrange(start, i as int),
            forall|k: int| start <= k < i ==> whole[k] != SEPARATOR,
            split_fields(whole) == views(parts@) + split_fields(whole.skip(start)),
        decreases end - i,
    {
        let byte = text[i];
        if byte == SEPARATOR {
            proof {
                let rest = whole.skip(start);
                assert forall|k: int| 0 <= k < i - start implies rest[k] != SEPARATOR by {
                    assert(rest[k] == whole[start + k]);
                }
                lemma_first_separator(rest, i - start);
                assert(rest.take(i - start) =~= field@);
                assert(rest.skip(i - start + 1) =~= whole.skip(i + 1));
                assert(views(parts@.push(field)) =~= views(parts@) + seq![field@]);
                assert(views(parts@) + (seq![field@] + split_fields(whole.skip(i + 1))) =~= views(
                    parts@,
                ) + seq![field@] + split_fields(whole.skip(i + 1)));
                start = i + 1;
            }
            parts.push(field);
            field = Vec::new();
            assert(field@ =~= whole.subrange(start, i + 1));
        } else {
            field.push(byte);
            assert(field@ =~= whole.subrange(start, i + 1));
        }
        i += 1;
    }
    proof {
        let rest = whole.skip(start);
        assert forall|k: int| 0 <= k < rest.len() implies rest[k] != SEPARATOR by {
            assert(rest[k] == whole[start + k]);
        }
        lemma_first_separator(rest, rest.len() as int);
        assert(rest =~= field@);
        assert(views(parts@.push(field)) =~= views(parts@) + seq![field@]);
    }
    parts.push(field);
    parts
}

/// Reads the move code, the status code and the board string from a received
/// frame, or says why the frame is refused. No byte string makes it fail in
/// another way.
pub fn decode_message(frame: &[u8]) -> (decoded: Result<
    (Vec<u8>, Vec<u8>, Vec<u8>),
    ProtocolError,
>)
    ensures
        match decoded {
            Ok((move_code, status_code, board_string)) => decoded_frame(frame@) == Ok::<
                (Seq<u8>, Seq<u8>, Seq<u8>),
                ProtocolError,
            >((move_code@, status_code@, board_string@)),
            Err(error) => decoded_frame(frame@) == Err::<
                (Seq<u8>, Seq<u8>, Seq<u8>),
                ProtocolError,
            >(error),
        },
{
    let end = trimmed_len(frame);
    let mut parts = split(frame, end);
    let ghost fields = views(parts@);
    if parts.len() < 4 {
        return Err(ProtocolError::TooFewFields);
    }
    let expected = tag();
    assert(fields[0] == parts@[0]@);
    if !same_bytes(parts[0].as_slice(), expected.as_slice()) {
        return Err(ProtocolError::UnknownTag);
    }
    assert(fields[1] == parts@[1]@ && fields[2] == parts@[2]@ && fields[3] == parts@[3]@);
    parts.truncate(4);
    let board_string = parts.pop().unwrap();
    let status_code = parts.pop().unwrap();
    let move_code = parts.pop().unwrap();
    Ok((move_code, status_code, board_string))
}

/// Trimming takes the padding off a text that does not itself end in a
/// padding byte.
pub proof fn lemma_trim_padded(body: Seq<u8>, count: nat)
    requires
        body.len() == 0 || body.last() != PADDING,
    ensures
        trim_padding(body + padding(count)) == body,
    decreases count,
{
    let padded = body + padding(count);
    if count == 0 {
        assert(padded =~= body);
    } else {
        assert(padded.last() == PADDING);
        assert(padded.drop_last() =~= body + padding((count - 1) as nat));
        lemma_trim_padded(body, (count - 1) as nat);
    }
}

/// What is left of a frame without its padding is a prefix of the frame.
pub proof fn lemma_trim_is_prefix(frame: Seq<u8>)
    ensures
        trim_padding(frame).len() <= frame.len(),
        trim_padding(frame) == frame.take(trim_padding(frame).len() as int),
    decreases frame.len(),
{
    if frame.len() > 0 && frame.last() == PADDING {
        lemma_trim_is_prefix(frame.drop_last());
        let kept = trim_padding(frame).len() as int;
        assert(frame.drop_last().take(kept) =~= frame.take(kept));
    } else {
        assert(frame.take(frame.len() as int) =~= frame);
    }
}

/// A text that starts with a field without a colon, and a colon after it,
/// splits into that field and the parts of what follows the colon.
pub proof fn lemma_split_first(field: Seq<u8>, rest: Seq<u8>)
    requires
        no_separator(field),
    ensures
        split_fields(field + seq![SEPARATOR] + rest) == seq![field] + split_fields(rest),
{
    let text = field + seq![SEPARATOR] + rest;
    assert forall|i: int| 0 <= i < field.len() implies text[i] != SEPARATOR by {
        assert(text[i] == field[i]);
    }
    assert(text[field.len() as int] == SEPARATOR);
    lemma_first_separator(text, field.len() as int);
    assert(text.take(field.len() as int) =~= field);
    assert(text.skip(field.len() as int + 1) =~= rest);
}

/// A text splits into at least one part and at most one more than it has
/// bytes.
pub proof fn lemma_split_len(text: Seq<u8>)
    ensures
        1 <= split_fields(text).len() <= text.len() + 1,
    decreases text.len(),
{
    let cut = first_separator(text);
    if 0 <= cut < text.len() {
        lemma_split_len(text.skip(cut + 1));
    }
}

/// What `framed` builds is a frame: it has the size asked for, and decoding
/// it gives back the three fields, whatever they are, as long as none holds a
/// colon.
pub proof fn lemma_frame_roundtrip(
    move_code: Seq<u8>,
    status_code: Seq<u8>,
    board_string: Seq<u8>,
    frame_size: nat,
)
    requires
        fits(move_code, status_code, board_string, frame_size),
        no_separator(move_code),
        no_separator(status_code),
        no_separator(board_string),
    ensures
        framed(move_code, status_code, board_string, frame_size).len() == frame_size,
        decoded_frame(framed(move_code, status_code, board_string, frame_size)) == Ok::<
            (Seq<u8>, Seq<u8>, Seq<u8>),
            ProtocolError,
        >((move_code, status_code, board_string)),
{
    let body = frame_body(move_code, status_code, board_string);
    let colon = seq![SEPARATOR];
    let empty = Seq::<u8>::empty();
    lemma_trim_padded(body, (frame_size - body.len()) as nat);
    let after_board = board_string + colon + empty;
    let after_status = status_code + colon + after_board;
    let after_move = move_code + colon + after_status;
    assert(body =~= protocol_tag() + colon + after_move);
    lemma_split_first(protocol_tag(), after_move);
    lemma_split_first(move_code, after_status);
    lemma_split_first(status_code, after_board);
    lemma_split_first(board_string, empty);
    assert(split_fields(empty) =~= seq![empty]);
    assert(split_fields(body) =~= seq![
        protocol_tag(),
        move_code,
        status_code,
        board_string,
        empty,
    ]);
}

/// Where a text holds a colon, its first colon is one.
proof fn lemma_cut_is_separator(text: Seq<u8>)
    requires
        0 <= first_separator(text) < text.len(),
    ensures
        text[first_separator(text)] == SEPARATOR,
    decreases text.len(),
{
    if text.len() == 0 || text[0] == SEPARATOR {
    } else {
        lemma_first_separator(text.drop_first(), 0);
        lemma_cut_is_separator(text.drop_first());
    }
}

/// A byte string that is accepted as a frame starts with the tag and a
/// colon, and is twelve bytes long or longer.
pub proof fn lemma_accepted_frame(frame: Seq<u8>)
    requires
        decoded_frame(frame) is Ok,
    ensures
        frame.len() >= FRAME_OVERHEAD - 1,
        frame.take(TAG_LEN as int) == protocol_tag(),
        frame[TAG_LEN as int] == SEPARATOR,
{
    let text = trim_padding(frame);
    lemma_trim_is_prefix(frame);
    let cut = first_separator(text);
    lemma_first_separator(text, 0);
    assert(0 <= cut < text.len());
    assert(split_fields(text)[0] == text.take(cut));
    assert(text.take(cut).len() == protocol_tag().len());
    lemma_split_len(text.skip(cut + 1));
    assert(text.take(cut) =~= frame.take(TAG_LEN as int));
    lemma_cut_is_separator(text);
}

/// Malformed input is refused, and refused with the error that names its
/// fault: a byte string of fewer than four parts with `TooFewFields`, one of
/// four parts or more under another tag with `UnknownTag`. So is every byte
/// string that is cut off before its twelfth byte, and every one that does
/// not start with the tag and a colon.
pub proof fn lemma_malformed_refused(frame: Seq<u8>)
    ensures
        split_fields(trim_padding(frame)).len() < 4 ==> decoded_frame(frame) == Err::<
            (Seq<u8>, Seq<u8>, Seq<u8>),
            ProtocolError,
        >(ProtocolError::TooFewFields),
        split_fields(trim_padding(frame)).len() >= 4 && split_fields(trim_padding(frame))[0]
            != protocol_tag() ==> decoded_frame(frame) == Err::<
            (Seq<u8>, Seq<u8>, Seq<u8>),
            ProtocolError,
        >(ProtocolError::UnknownTag),
        frame.len() < FRAME_OVERHEAD - 1 ==> decoded_frame(frame) is Err,
        frame.len() > TAG_LEN && (frame.take(TAG_LEN as int) != protocol_tag()
            || frame[TAG_LEN as int] != SEPARATOR) ==> decoded_frame(frame) is Err,
{
    if decoded_frame(frame) is Ok {
        lemma_accepted_frame(frame);
    }
}

/// The code of a move on the board, the code of a status and the placement
/// string of a board hold no colon, and with the tag they take 92 bytes at
/// most: a frame of that size or more carries every message, and the peer
/// reads from it what was written.
pub proof fn lemma_message_roundtrip(
    mv: Move,
    status: GameStatusCode,
    squares: Seq<Option<Piece>>,
    frame_size: nat,
)
    requires
        mv.wf(),
        squares.len() == SQUARES,
        frame_size >= MAX_MESSAGE_LEN,
    ensures
        fits(move_code(mv), status.wire(), placement(squares), frame_size),
        framed(move_code(mv), status.wire(), placement(squares), frame_size).len() == frame_size,
        decoded_frame(framed(move_code(mv), status.wire(), placement(squares), frame_size)) == Ok::<
            (Seq<u8>, Seq<u8>, Seq<u8>),
            ProtocolError,
        >((move_code(mv), status.wire(), placement(squares))),
{
    lemma_placement_shape(squares);
    let board_string = placement(squares);
    assert forall|i: int| 0 <= i < board_string.len() implies board_string[i] != SEPARATOR by {
        assert(placement_byte(board_string[i]));
    }
    lemma_frame_roundtrip(move_code(mv), status.wire(), board_string, frame_size);
}

} // verus!
