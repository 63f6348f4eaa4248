//! What a table of a font says, said part by part.

use crate::convert::{font_at, font_of_table, font_spelled, numbers_of, Fields};
use crate::laws::tables::fits_text;
use crate::laws::words::law_a_font_is_spelled_in_three;
use crate::lua::{lookup, signed_text, LuaFault, LuaView};
use crate::style::FontView;
use crate::text::{decimal_text, pieces};
use vstd::prelude::*;

verus! {

/// Whether a value is one part of a font, or none: a text without a colon in it,
/// which is one piece.
pub open spec fn is_part(value: LuaView) -> bool {
    match value {
        LuaView::Nil => true,
        LuaView::Text(t) => !t.text.contains(':') && t.pieces.len() == 1,
        _ => false,
    }
}

/// The text of a part.
pub open spec fn part_text(value: LuaView) -> Seq<char> {
    match value {
        LuaView::Text(t) => t.text,
        _ => Seq::empty(),
    }
}

/// A number that is written has no colon in it.
proof fn lemma_no_colon(i: i64)
    ensures
        !signed_text(i as int).contains(':'),
{
    let n = (if i < 0 {
        -(i as int)
    } else {
        i as int
    }) as nat;
    crate::text::lemma_number_text_is_digits(n, 10);
    reveal_strlit("-");
    let digits = decimal_text(n);
    let text = signed_text(i as int);
    assert forall|k: int| 0 <= k < text.len() implies text[k] != ':' by {
        if i < 0 {
            assert(text == "-"@ + digits);
            if k > 0 {
                assert(text[k] == digits[k - 1]);
                assert(crate::text::digit_worth(digits[k - 1]) < 10);
            }
        } else {
            assert(crate::text::digit_worth(digits[k]) < 10);
        }
    }
}

/// A table of a font says its family, its style and its size, each under its own name.
/// Where one is not said or is empty, it is the usual one.
pub proof fn law_a_font_says_what_stands_under_each_name(fields: Fields)
    requires
        is_part(lookup(fields, "family"@)),
        is_part(lookup(fields, "style"@)),
        match lookup(fields, "size"@) {
            LuaView::Nil => true,
            LuaView::Integer(_, _) => true,
            LuaView::Number(n) => !n.measure.text.contains(':'),
            _ => false,
        },
    ensures
        font_of_table(fields) matches Ok(font) && ({
            let family = part_text(lookup(fields, "family"@));
            let style = part_text(lookup(fields, "style"@));
            &&& font.family == if family.len() == 0 {
                "SF Pro"@
            } else {
                family
            }
            &&& font.style == if style.len() == 0 {
                "Regular"@
            } else {
                style
            }
            &&& match lookup(fields, "size"@) {
                LuaView::Integer(_, measure) => font.size_bits == measure.bits && font.size_text
                    == measure.text,
                LuaView::Number(n) => font.size_bits == n.measure.bits && font.size_text
                    == n.measure.text,
                _ => font.size_text == "13"@,
            }
        }),
{
    reveal_strlit(":");
    let family = part_text(lookup(fields, "family"@));
    let style = part_text(lookup(fields, "style"@));
    let size = match lookup(fields, "size"@) {
        LuaView::Integer(i, _) => signed_text(i as int),
        LuaView::Number(n) => n.measure.text,
        _ => Seq::empty(),
    };
    if let LuaView::Integer(i, _) = lookup(fields, "size"@) {
        lemma_no_colon(i);
    }
    let numbers = numbers_of(lookup(fields, "family"@)) + numbers_of(lookup(fields, "style"@))
        + numbers_of(lookup(fields, "size"@));
    assert(numbers.len() == 3);
    assert(numbers =~= seq![numbers[0], numbers[1], numbers[2]]);
    assert(numbers[2] == numbers_of(lookup(fields, "size"@))[0]);
    law_a_font_is_spelled_in_three(family, style, size, numbers[0], numbers[1], numbers[2]);
    assert(family + ":"@ + style + ":"@ + size =~= family + seq![':'] + style + seq![':'] + size);
}

/// A font that is written flat is spelled, one that is a table says its parts, and one
/// that is neither is refused.
pub proof fn law_a_font_is_spelled_or_a_table(fields: Fields)
    ensures
        lookup(fields, "font"@) is Nil ==> font_at(fields) == Ok::<Option<FontView>, LuaFault>(None),
        lookup(fields, "font"@) matches LuaView::Text(t) ==> font_at(fields) == Ok::<
            Option<FontView>,
            LuaFault,
        >(Some(font_spelled(t.text, t.pieces))),
        lookup(fields, "font"@) matches LuaView::Table(inner, _, _) ==> match font_of_table(inner) {
            Ok(font) => font_at(fields) == Ok::<Option<FontView>, LuaFault>(Some(font)),
            Err(fault) => font_at(fields) == Err::<Option<FontView>, LuaFault>(fault),
        },
        lookup(fields, "font"@) is Boolean || lookup(fields, "font"@) is Integer || lookup(
            fields,
            "font"@,
        ) is Number || lookup(fields, "font"@) is Bytes || lookup(fields, "font"@) is Other
            ==> font_at(fields) is Err,
{
}

/// Whether a value is a font, or none: a text, or a table whose family and style are
/// texts and whose size is a number.
pub open spec fn fits_font(value: LuaView) -> bool {
    match value {
        LuaView::Nil => true,
        LuaView::Text(_) => true,
        LuaView::Table(inner, _, _) => {
            &&& fits_text(lookup(inner, "family"@))
            &&& fits_text(lookup(inner, "style"@))
            &&& lookup(inner, "size"@) is Nil || lookup(inner, "size"@) is Integer || lookup(
                inner,
                "size"@,
            ) is Number
        },
        _ => false,
    }
}

/// A font reads exactly where its parts do.
pub proof fn law_a_font_reads_where_its_parts_do(fields: Fields)
    ensures
        font_at(fields) is Ok <==> fits_font(lookup(fields, "font"@)),
{
}

} // verus!
