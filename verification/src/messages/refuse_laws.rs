//! What holds of every REFUSE message.

use crate::buffer::read::be_value;
use crate::error::{opt_text, ErrorView};
use crate::messages::refuse::{
    code_in, error_code_reads_back, refusal_error, refusal_text, RefuseMessage,
};
use crate::text::{decimal, first_occurrence, lemma_first_occurrence, number_u32, occurs_at};
use vstd::prelude::*;
use vstd::utf8::{encode_utf8, encode_utf8_decode_utf8, encode_utf8_valid_utf8};

verus! {

/// True of a place in a text where `(ERR=` starts.
pub open spec fn code_starts_at(text: Seq<char>, at: int) -> bool {
    &&& 0 <= at
    &&& at + 5 <= text.len()
    &&& text[at] == '('
    &&& text[at + 1] == 'E'
    &&& text[at + 2] == 'R'
    &&& text[at + 3] == 'R'
    &&& text[at + 4] == '='
}

/// Where `(ERR=` is found, it starts.
proof fn lemma_code_starts(text: Seq<char>, at: int)
    ensures
        occurs_at(text, "(ERR="@, at) <==> code_starts_at(text, at),
{
    reveal_strlit("(ERR=");
    if occurs_at(text, "(ERR="@, at) {
        let found = text.subrange(at, at + 5);
        assert(found[0] == text[at]);
        assert(found[1] == text[at + 1]);
        assert(found[2] == text[at + 2]);
        assert(found[3] == text[at + 3]);
        assert(found[4] == text[at + 4]);
    }
    if code_starts_at(text, at) {
        assert(text.subrange(at, at + 5) =~= "(ERR="@);
    }
}

/// What a parsed message says of its error code: in whatever text it carries, and however long that
/// is, the number between the first `(ERR=` and the `)` behind it is the error code.
pub proof fn parsed_message_names_its_code(
    message: RefuseMessage,
    before: Seq<char>,
    code: u32,
    behind: Seq<char>,
)
    requires
        message.error_code == code_in(opt_text(message.data)),
        opt_text(message.data) == Some(
            before + "(ERR="@ + decimal(code as nat) + ")"@ + behind,
        ),
        forall|at: int|
            0 <= at < before.len() ==> !#[trigger] code_starts_at(
                before + "(ERR="@ + decimal(code as nat) + ")"@ + behind,
                at,
            ),
    ensures
        message.error_code == Some(code),
{
    let text = before + "(ERR="@ + decimal(code as nat) + ")"@ + behind;
    reveal_strlit("(ERR=");
    assert forall|at: int| 0 <= at < before.len() implies !#[trigger] occurs_at(
        text,
        "(ERR="@,
        at,
    ) by {
        lemma_code_starts(text, at);
    }
    error_code_reads_back(before, code, behind);
}

/// What the server wrote behind the reason and the length is the text of the message, and the
/// number in it the error code, whatever stands behind the text.
pub proof fn written_refusal_is_understood(
    reason: Seq<u8>,
    before: Seq<char>,
    code: u32,
    behind: Seq<char>,
    trailing: Seq<u8>,
)
    requires
        reason.len() == 2,
        encode_utf8(before + "(ERR="@ + decimal(code as nat) + ")"@ + behind).len() <= 65535,
        forall|at: int|
            0 <= at < before.len() ==> !#[trigger] code_starts_at(
                before + "(ERR="@ + decimal(code as nat) + ")"@ + behind,
                at,
            ),
    ensures
        ({
            let text = before + "(ERR="@ + decimal(code as nat) + ")"@ + behind;
            let bytes = encode_utf8(text);
            let length = seq![(bytes.len() / 0x100) as u8, (bytes.len() % 0x100) as u8];
            let payload = reason + length + bytes + trailing;
            &&& refusal_text(payload) == Some(text)
            &&& code_in(refusal_text(payload)) == Some(code)
        }),
{
    let text = before + "(ERR="@ + decimal(code as nat) + ")"@ + behind;
    reveal_strlit("(ERR=");
    assert(text.len() > 0);
    written_text_is_read(reason, text, trailing);
    assert forall|at: int| 0 <= at < before.len() implies !#[trigger] occurs_at(
        text,
        "(ERR="@,
        at,
    ) by {
        lemma_code_starts(text, at);
    }
    error_code_reads_back(before, code, behind);
}

/// A text with its length in front is the text of the message, whatever the reason is and whatever
/// stands behind.
pub proof fn written_text_is_read(reason: Seq<u8>, text: Seq<char>, trailing: Seq<u8>)
    requires
        reason.len() == 2,
        text.len() > 0,
        encode_utf8(text).len() <= 65535,
    ensures
        ({
            let bytes = encode_utf8(text);
            let length = seq![(bytes.len() / 0x100) as u8, (bytes.len() % 0x100) as u8];
            refusal_text(reason + length + bytes + trailing) == Some(text)
        }),
{
    let bytes = encode_utf8(text);
    let length = seq![(bytes.len() / 0x100) as u8, (bytes.len() % 0x100) as u8];
    let payload = reason + length + bytes + trailing;
    encode_utf8_decode_utf8(text);
    encode_utf8_valid_utf8(text);
    assert(bytes.len() > 0) by {
        if bytes.len() == 0 {
            encode_utf8_decode_utf8(Seq::empty());
            assert(bytes =~= encode_utf8(Seq::<char>::empty()));
        }
    }
    assert(payload.subrange(2, 4) =~= length);
    lemma_two_bytes(length);
    assert(payload.subrange(4, 4 + bytes.len() as int) =~= bytes);
}

/// The number that two bytes stand for.
proof fn lemma_two_bytes(bytes: Seq<u8>)
    requires
        bytes.len() == 2,
    ensures
        be_value(bytes) == bytes[0] * 0x100 + bytes[1],
{
    reveal_with_fuel(be_value, 3);
    assert(bytes.drop_last().drop_last() =~= Seq::<u8>::empty());
}

/// A message whose length is zero, or more than there is behind it, carries no text and no error
/// code.
pub proof fn refusal_without_text(payload: Seq<u8>)
    requires
        payload.len() >= 4,
        payload[2] * 0x100 + payload[3] == 0 || payload[2] * 0x100 + payload[3] > payload.len() - 4,
    ensures
        refusal_text(payload) is None,
        code_in(refusal_text(payload)) is None,
{
    lemma_two_bytes(payload.subrange(2, 4));
}

/// No place before which nothing is found.
proof fn lemma_no_occurrence(text: Seq<char>, pattern: Seq<char>, from: nat)
    requires
        forall|at: int| from <= at ==> !#[trigger] occurs_at(text, pattern, at),
    ensures
        first_occurrence(text, pattern, from) is None,
    decreases text.len() + 1 - from,
{
    if from + pattern.len() <= text.len() {
        assert(!occurs_at(text, pattern, from as int));
        lemma_no_occurrence(text, pattern, from + 1);
    }
}

/// A text in which `(ERR=` does not stand carries no error code.
pub proof fn text_without_code(text: Seq<char>)
    requires
        forall|at: int| 0 <= at < text.len() ==> !#[trigger] code_starts_at(text, at),
    ensures
        code_in(Some(text)) is None,
{
    assert forall|at: int| 0 <= at implies !#[trigger] occurs_at(text, "(ERR="@, at) by {
        lemma_code_starts(text, at);
    }
    lemma_no_occurrence(text, "(ERR="@, 0);
}

/// What stands between the first `(ERR=` and the first `)` behind it is the error code if it is a
/// number, and otherwise there is none.
pub proof fn only_a_number_is_a_code(before: Seq<char>, inner: Seq<char>, behind: Seq<char>)
    requires
        forall|at: int|
            0 <= at < before.len() ==> !#[trigger] code_starts_at(
                before + "(ERR="@ + inner + ")"@ + behind,
                at,
            ),
        !inner.contains(')'),
    ensures
        code_in(Some(before + "(ERR="@ + inner + ")"@ + behind)) == number_u32(inner),
{
    let text = before + "(ERR="@ + inner + ")"@ + behind;
    let start = (before.len() + 5) as int;
    let end = start + inner.len();
    reveal_strlit("(ERR=");
    reveal_strlit(")");
    assert forall|at: int| 0 <= at < before.len() implies !#[trigger] occurs_at(
        text,
        "(ERR="@,
        at,
    ) by {
        lemma_code_starts(text, at);
    }
    assert(text.subrange(before.len() as int, start) =~= "(ERR="@);
    lemma_first_occurrence(text, "(ERR="@, 0, before.len() as int);
    assert(text.subrange(end, end + 1) =~= ")"@);
    assert forall|at: int| start <= at < end implies !#[trigger] occurs_at(text, ")"@, at) by {
        assert(text[at] == inner[at - start]);
        assert(text.subrange(at, at + 1)[0] == text[at]);
    }
    lemma_first_occurrence(text, ")"@, start as nat, end);
    assert(text.subrange(start, end) =~= inner);
}

/// A code of 12514 is a wrong service name, one of 12505 a wrong SID, and anything else a plain
/// refusal. The text and the name that was asked for are handed on as they are.
pub proof fn code_decides_the_error(
    data: Option<Seq<char>>,
    error_code: Option<u32>,
    name: Option<Seq<char>>,
)
    ensures
        error_code == Some(12514u32) ==> refusal_error(data, error_code, name)
            == (ErrorView::InvalidServiceName { service_name: name, message: data }),
        error_code == Some(12505u32) ==> refusal_error(data, error_code, name)
            == (ErrorView::InvalidSid { sid: name, message: data }),
        error_code != Some(12514u32) && error_code != Some(12505u32) ==> refusal_error(
            data,
            error_code,
            name,
        ) == (ErrorView::ConnectionRefused { error_code, message: data }),
{
}

} // verus!
