//! Entries of the user info string table.

use tf_demo_parser::demo::data::UserInfo;
use tf_demo_parser::Demo;

use vstd::prelude::*;

use crate::text::chars_of;

verus! {

/// The user id, player name and entity index that tf_demo_parser decodes from
/// a user info entry (its table index, text and extra data), or `None` when
/// the entry holds no player.
pub uninterp spec fn user_info_entry(
    index: u16,
    text: Option<Seq<char>>,
    data: Option<Seq<u8>>,
) -> Option<(u16, Seq<char>, u32)>;

pub open spec fn text_view(text: Option<&str>) -> Option<Seq<char>> {
    match text {
        Some(t) => Some(t@),
        None => None,
    }
}

pub open spec fn bytes_view(data: Option<&[u8]>) -> Option<Seq<u8>> {
    match data {
        Some(d) => Some(d@),
        None => None,
    }
}

pub open spec fn entry_view(entry: Option<(u16, String, u32)>) -> Option<(u16, Seq<char>, u32)> {
    match entry {
        Some((user_id, name, entity)) => Some((user_id, name@, entity)),
        None => None,
    }
}

/// A decimal digit character.
pub open spec fn is_decimal_digit(c: char) -> bool {
    48 <= (c as u32) <= 57
}

/// The number that a sequence of decimal digits writes.
pub open spec fn decimal_value(digits: Seq<char>) -> int
    decreases digits.len(),
{
    if digits.len() == 0 {
        0
    } else {
        decimal_value(digits.drop_last()) * 10 + ((digits.last() as u32) - 48)
    }
}

/// The digits of an unsigned integer text: the text without one leading `+`.
pub open spec fn unsigned_digits(text: Seq<char>) -> Seq<char> {
    if text.len() > 0 && text[0] == '+' {
        text.skip(1)
    } else {
        text
    }
}

/// `text` parses as a `u32` whose value is `u32::MAX`: an optional `+`, then
/// one or more decimal digits (leading zeros allowed) that write 4294967295.
pub open spec fn parses_to_u32_max(text: Seq<char>) -> bool {
    let digits = unsigned_digits(text);
    &&& digits.len() > 0
    &&& forall|i: int| 0 <= i < digits.len() ==> is_decimal_digit(#[trigger] digits[i])
    &&& decimal_value(digits) == u32::MAX
}

/// `text` parses as a `u32`: an optional `+`, then one or more decimal digits
/// (leading zeros allowed) whose value is at most `u32::MAX`.
pub open spec fn parses_as_u32(text: Seq<char>) -> bool {
    let digits = unsigned_digits(text);
    &&& digits.len() > 0
    &&& forall|i: int| 0 <= i < digits.len() ==> is_decimal_digit(#[trigger] digits[i])
    &&& decimal_value(digits) <= u32::MAX
}

/// The entity index that a user info entry names: one more than the number
/// its text writes, or, without text, one more than its table index.
pub open spec fn entry_names_entity(index: u16, text: Option<Seq<char>>, entity: u32) -> bool {
    match text {
        Some(t) => parses_as_u32(t) && entity == decimal_value(unsigned_digits(t)) + 1,
        None => entity == index + 1,
    }
}

/// The entry text names the entity just below index `u32::MAX + 1`, which the
/// decoder cannot represent.
pub open spec fn entity_text_overflows(text: Option<Seq<char>>) -> bool {
    match text {
        Some(t) => parses_to_u32_max(t),
        None => false,
    }
}

proof fn lemma_decimal_value_grows(s: Seq<char>, m: int)
    requires
        0 <= m <= s.len(),
        forall|i: int| 0 <= i < s.len() ==> is_decimal_digit(#[trigger] s[i]),
    ensures
        decimal_value(s) >= decimal_value(s.take(m)) >= 0,
    decreases s.len(),
{
    if s.len() > 0 {
        let t = s.drop_last();
        assert forall|i: int| 0 <= i < t.len() implies is_decimal_digit(#[trigger] t[i]) by {
            assert(t[i] == s[i]);
        }
        if m < s.len() {
            lemma_decimal_value_grows(t, m);
            assert(t.take(m) =~= s.take(m));
        } else {
            lemma_decimal_value_grows(t, t.len() as int);
            assert(s.take(m) =~= s);
            assert(t.take(t.len() as int) =~= t);
        }
    } else {
        assert(s.take(m) =~= s);
    }
}

/// Whether the entry text parses to `u32::MAX`.
pub fn text_overflows_entity(text: Option<&str>) -> (b: bool)
    ensures
        b == entity_text_overflows(text_view(text)),
{
    let t = match text {
        Some(t) => t,
        None => {
            return false;
        },
    };
    let cs = chars_of(t);
    let start: usize = if cs.len() > 0 && cs[0] == '+' {
        1
    } else {
        0
    };
    let ghost digits = cs@.skip(start as int);
    assert(digits == unsigned_digits(t@));
    if start >= cs.len() {
        return false;
    }
    let mut value: u64 = 0;
    let mut i: usize = start;
    assert(cs@.subrange(start as int, start as int) =~= Seq::<char>::empty());
    while i < cs.len()
        invariant
            start <= i <= cs.len(),
            text_view(text) == Some(t@),
            cs@ == t@,
            digits == unsigned_digits(t@),
            digits == cs@.skip(start as int),
            forall|k: int| start <= k < i ==> is_decimal_digit(#[trigger] cs@[k]),
            value as int == decimal_value(cs@.subrange(start as int, i as int)),
            value <= u32::MAX,
        decreases cs.len() - i,
    {
        let c = cs[i];
        let code = c as u32;
        if code < 48 || code > 57 {
            assert(digits[i - start] == cs@[i as int]);
            return false;
        }
        let next = value * 10 + (code - 48) as u64;
        proof {
            let sub = cs@.subrange(start as int, i + 1);
            assert(sub.drop_last() =~= cs@.subrange(start as int, i as int));
        }
        if next > 4294967295 {
            proof {
                if forall|k: int| 0 <= k < digits.len() ==> is_decimal_digit(#[trigger] digits[k]) {
                    lemma_decimal_value_grows(digits, i + 1 - start);
                    assert(digits.take(i + 1 - start) =~= cs@.subrange(start as int, i + 1));
                }
            }
            return false;
        }
        value = next;
        i = i + 1;
    }
    proof {
        assert(cs@.subrange(start as int, cs.len() as int) =~= digits);
        assert forall|k: int| 0 <= k < digits.len() implies is_decimal_digit(#[trigger] digits[k]) by {
            assert(digits[k] == cs@[k + start]);
        }
    }
    value == 4294967295
}

/// Calls `UserInfo::parse_from_string_table` of tf_demo_parser on a user info
/// entry whose extra data is given as bytes (read as a little-endian bit
/// stream, as the demo stores it), and keeps the user id, the name and the
/// entity index of the player it decodes. A decoding error counts as no
/// player. Without extra data the function decodes no player. A decoded
/// player's entity index is one more than the `u32` that the text writes
/// (`str::parse`), or one more than the table index when there is no text; its
/// user id and name come from the data and are left to the parser, only
/// named here. A text that
/// parses to `u32::MAX` makes the parser overflow when it adds one to get the
/// entity index, so such texts are excluded.
#[verifier::external_body]
pub(crate) fn parse_user_info(index: u16, text: Option<&str>, data: Option<&[u8]>) -> (entry: Option<
    (u16, String, u32),
>)
    requires
        !entity_text_overflows(text_view(text)),
    ensures
        entry_view(entry) == user_info_entry(index, text_view(text), bytes_view(data)),
        data is None ==> entry is None,
        entry matches Some(e) ==> entry_names_entity(index, text_view(text), e.2),
{
    let stream = match data {
        Some(bytes) => Some(Demo::new(bytes).get_stream()),
        None => None,
    };
    match UserInfo::parse_from_string_table(index, text, stream) {
        Ok(Some(info)) => Some(
            (u16::from(info.player_info.user_id), info.player_info.name, u32::from(info.entity_id)),
        ),
        _ => None,
    }
}

} // verus!
