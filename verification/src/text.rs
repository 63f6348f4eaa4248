//! Text as a sequence of characters: folding, affixes, and numbers written out.

use vstd::prelude::*;

verus! {

/// `String::push` appends one character to the end of the string.
pub assume_specification[ std::string::String::push ](text: &mut std::string::String, c: char)
    ensures
        final(text)@ == old(text)@.push(c),
;

/// Whether two pieces of text hold the same characters.
pub fn same(a: &str, b: &str) -> (r: bool)
    ensures
        r == (a@ == b@),
{
    a.to_owned() == b.to_owned()
}

/// The characters of a text, in order.
pub fn chars_of(text: &str) -> (r: Vec<char>)
    ensures
        r@ == text@,
{
    let mut out: Vec<char> = Vec::new();
    for c in it: text.chars()
        invariant
            out@ == it.seq().take(it.index()),
            it.seq() == text@,
    {
        out.push(c);
    }
    out
}

/// The text a run of characters makes, from `start` on.
pub fn text_from(chars: &Vec<char>, start: usize) -> (r: String)
    requires
        start <= chars@.len(),
    ensures
        r@ == chars@.skip(start as int),
{
    let mut out = String::new();
    let mut i: usize = start;
    while i < chars.len()
        invariant
            start <= i <= chars@.len(),
            out@ == chars@.subrange(start as int, i as int),
        decreases chars@.len() - i,
    {
        out.push(chars[i]);
        i = i + 1;
    }
    out
}

/// Two texts, one after the other.
pub fn joined(a: &str, b: &str) -> (r: String)
    ensures
        r@ == a@ + b@,
{
    a.to_owned().concat(b)
}

/// Three texts, one after the other.
pub fn joined3(a: &str, b: &str, c: &str) -> (r: String)
    ensures
        r@ == a@ + b@ + c@,
{
    a.to_owned().concat(b).concat(c)
}

// ---------------------------------------------------------------------------
// Folding

/// An ASCII capital as its small letter, and anything else as itself.
pub open spec fn lower_char(c: char) -> char {
    if 'A' <= c && c <= 'Z' {
        ((c as u8 + 32) as u8) as char
    } else {
        c
    }
}

/// Every ASCII capital as its small letter.
pub open spec fn lowered(s: Seq<char>) -> Seq<char> {
    s.map_values(|c: char| lower_char(c))
}

/// An ASCII small letter as its capital, and anything else as itself.
pub open spec fn upper_char(c: char) -> char {
    if 'a' <= c && c <= 'z' {
        ((c as u8 - 32) as u8) as char
    } else {
        c
    }
}

/// Every ASCII small letter as its capital.
pub open spec fn uppered(s: Seq<char>) -> Seq<char> {
    s.map_values(|c: char| upper_char(c))
}

/// Every `from` as a `to`.
pub open spec fn replaced(s: Seq<char>, from: char, to: char) -> Seq<char> {
    s.map_values(|c: char| if c == from { to } else { c })
}

/// Text holding no ASCII capital.
pub open spec fn has_no_capital(s: Seq<char>) -> bool {
    forall|i: int| 0 <= i < s.len() ==> !('A' <= #[trigger] s[i] && s[i] <= 'Z')
}

/// Lower-cases the ASCII letters of a text.
pub fn lowercase(text: &str) -> (r: String)
    ensures
        r@ == lowered(text@),
{
    let mut out = String::new();
    for c in it: text.chars()
        invariant
            out@ == lowered(it.seq().take(it.index())),
            it.seq() == text@,
    {
        let folded: char = if 'A' <= c && c <= 'Z' {
            ((c as u8) + 32) as char
        } else {
            c
        };
        out.push(folded);
        proof {
            assert(it.seq().take(it.index() + 1) =~= it.seq().take(it.index()).push(c));
            assert(lowered(it.seq().take(it.index() + 1)) =~= lowered(
                it.seq().take(it.index()),
            ).push(lower_char(c)));
        }
    }
    proof {
        assert(text@.take(text@.len() as int) =~= text@);
    }
    out
}

/// Upper-cases the ASCII letters of a text.
pub fn uppercase(text: &str) -> (r: String)
    ensures
        r@ == uppered(text@),
{
    let mut out = String::new();
    for c in it: text.chars()
        invariant
            out@ == uppered(it.seq().take(it.index())),
            it.seq() == text@,
    {
        let folded: char = if 'a' <= c && c <= 'z' {
            ((c as u8) - 32) as char
        } else {
            c
        };
        out.push(folded);
        proof {
            assert(it.seq().take(it.index() + 1) =~= it.seq().take(it.index()).push(c));
            assert(uppered(it.seq().take(it.index() + 1)) =~= uppered(
                it.seq().take(it.index()),
            ).push(upper_char(c)));
        }
    }
    proof {
        assert(text@.take(text@.len() as int) =~= text@);
    }
    out
}

/// Writes `to` wherever a text has `from`.
pub fn replace(text: &str, from: char, to: char) -> (r: String)
    ensures
        r@ == replaced(text@, from, to),
{
    let mut out = String::new();
    for c in it: text.chars()
        invariant
            out@ == replaced(it.seq().take(it.index()), from, to),
            it.seq() == text@,
    {
        let kept: char = if c == from {
            to
        } else {
            c
        };
        out.push(kept);
        proof {
            assert(it.seq().take(it.index() + 1) =~= it.seq().take(it.index()).push(c));
            assert(replaced(it.seq().take(it.index() + 1), from, to) =~= replaced(
                it.seq().take(it.index()),
                from,
                to,
            ).push(kept));
        }
    }
    proof {
        assert(text@.take(text@.len() as int) =~= text@);
    }
    out
}

/// Text without a capital is its own lower case.
pub proof fn lemma_lowered_is_identity(s: Seq<char>)
    requires
        has_no_capital(s),
    ensures
        lowered(s) == s,
{
    assert(lowered(s) =~= s);
}

/// Lower-casing twice is lower-casing once.
pub proof fn lemma_lowered_twice(s: Seq<char>)
    ensures
        has_no_capital(lowered(s)),
        lowered(lowered(s)) == lowered(s),
{
    assert forall|i: int| 0 <= i < lowered(s).len() implies !('A' <= #[trigger] lowered(s)[i]
        && lowered(s)[i] <= 'Z') by {
        let c = s[i];
        assert(lowered(s)[i] == lower_char(c));
    }
    lemma_lowered_is_identity(lowered(s));
}

// ---------------------------------------------------------------------------
// Affixes

/// Whether `s` starts with `prefix`.
pub open spec fn starts_with(s: Seq<char>, prefix: Seq<char>) -> bool {
    prefix.len() <= s.len() && s.take(prefix.len() as int) == prefix
}

/// Whether `s` ends with `suffix`.
pub open spec fn ends_with(s: Seq<char>, suffix: Seq<char>) -> bool {
    suffix.len() <= s.len() && s.skip(s.len() - suffix.len()) == suffix
}

/// What follows `prefix`, where `text` starts with it.
pub fn strip_prefix<'a>(text: &'a str, prefix: &str) -> (r: Option<&'a str>)
    ensures
        match r {
            Some(rest) => starts_with(text@, prefix@) && rest@ == text@.skip(prefix@.len() as int),
            None => !starts_with(text@, prefix@),
        },
{
    let n: usize = prefix.unicode_len();
    let len: usize = text.unicode_len();
    if n > len {
        return None;
    }
    if same(text.substring_char(0, n), prefix) {
        Some(text.substring_char(n, len))
    } else {
        None
    }
}

/// What precedes `suffix`, where `text` ends with it.
pub fn strip_suffix<'a>(text: &'a str, suffix: &str) -> (r: Option<&'a str>)
    ensures
        match r {
            Some(rest) => ends_with(text@, suffix@) && rest@ == text@.take(
                text@.len() - suffix@.len(),
            ),
            None => !ends_with(text@, suffix@),
        },
{
    let n: usize = suffix.unicode_len();
    let len: usize = text.unicode_len();
    if n > len {
        return None;
    }
    if same(text.substring_char(len - n, len), suffix) {
        Some(text.substring_char(0, len - n))
    } else {
        None
    }
}

// ---------------------------------------------------------------------------
// Characters

/// A Unicode control character: the category `Cc`, which is closed.
pub open spec fn is_control(c: char) -> bool {
    c <= '\u{1f}' || ('\u{7f}' <= c && c <= '\u{9f}')
}

/// Whether a text holds a control character.
pub open spec fn has_control(s: Seq<char>) -> bool {
    exists|i: int| 0 <= i < s.len() && is_control(#[trigger] s[i])
}

/// Whether a text holds a control character.
pub fn contains_control(text: &str) -> (r: bool)
    ensures
        r == has_control(text@),
{
    let chars = chars_of(text);
    let mut i: usize = 0;
    while i < chars.len()
        invariant
            i <= chars@.len(),
            chars@ == text@,
            forall|j: int| 0 <= j < i ==> !is_control(#[trigger] text@[j]),
        decreases chars@.len() - i,
    {
        let c: char = chars[i];
        if c <= '\u{1f}' || ('\u{7f}' <= c && c <= '\u{9f}') {
            assert(is_control(text@[i as int]));
            return true;
        }
        i = i + 1;
    }
    false
}

// ---------------------------------------------------------------------------
// Numbers

/// What a digit of some radix up to sixteen is worth, either case.
pub open spec fn digit_worth(c: char) -> nat {
    if '0' <= c && c <= '9' {
        (c as nat - '0' as nat) as nat
    } else if 'a' <= c && c <= 'f' {
        (c as nat - 'a' as nat + 10) as nat
    } else if 'A' <= c && c <= 'F' {
        (c as nat - 'A' as nat + 10) as nat
    } else {
        99
    }
}

/// Whether every character is a digit of the radix.
pub open spec fn all_digits(s: Seq<char>, radix: nat) -> bool {
    forall|i: int| 0 <= i < s.len() ==> digit_worth(#[trigger] s[i]) < radix
}

/// What a run of digits is worth, most significant first.
pub open spec fn digits_worth(s: Seq<char>, radix: nat) -> nat
    decreases s.len(),
{
    if s.len() == 0 {
        0
    } else {
        digits_worth(s.drop_last(), radix) * radix + digit_worth(s.last())
    }
}

/// A text without the one sign it may lead with.
pub open spec fn unsigned_part(s: Seq<char>) -> Seq<char> {
    if s.len() > 0 && s[0] == '+' {
        s.skip(1)
    } else {
        s
    }
}

/// The number an unsigned integer type reads a text as: an optional `+`, then
/// one or more digits, worth no more than the type can hold.
pub open spec fn number_read(s: Seq<char>, radix: nat, max: nat) -> Option<nat> {
    let digits = unsigned_part(s);
    if digits.len() > 0 && all_digits(digits, radix) && digits_worth(digits, radix) <= max {
        Some(digits_worth(digits, radix))
    } else {
        None
    }
}

/// A longer run of digits is worth at least as much as what it begins with.
proof fn lemma_digits_worth_grows(s: Seq<char>, k: int, radix: nat)
    requires
        0 <= k <= s.len(),
        radix >= 1,
    ensures
        digits_worth(s.take(k), radix) <= digits_worth(s, radix),
    decreases s.len(),
{
    if k == s.len() {
        assert(s.take(k) =~= s);
    } else {
        lemma_digits_worth_grows(s.drop_last(), k, radix);
        assert(s.drop_last().take(k) =~= s.take(k));
        let w = digits_worth(s.drop_last(), radix);
        assert(w <= w * radix) by (nonlinear_arith)
            requires
                radix >= 1,
        ;
    }
}

/// What one character is worth as a digit.
fn worth_of(c: char) -> (r: u64)
    ensures
        r == digit_worth(c),
{
    if '0' <= c && c <= '9' {
        (c as u64) - ('0' as u64)
    } else if 'a' <= c && c <= 'f' {
        (c as u64) - ('a' as u64) + 10
    } else if 'A' <= c && c <= 'F' {
        (c as u64) - ('A' as u64) + 10
    } else {
        99
    }
}

/// Reads an unsigned number the way the standard library does: an optional
/// `+`, then digits of the radix, with nothing over `max`.
pub fn read_number(text: &str, radix: u64, max: u64) -> (r: Option<u64>)
    requires
        2 <= radix <= 16,
    ensures
        match r {
            Some(n) => number_read(text@, radix as nat, max as nat) == Some(n as nat),
            None => number_read(text@, radix as nat, max as nat) is None,
        },
{
    let chars = chars_of(text);
    let start: usize = if chars.len() > 0 && chars[0] == '+' {
        1
    } else {
        0
    };
    let ghost digits = unsigned_part(text@);
    proof {
        assert(digits =~= text@.skip(start as int));
    }
    if chars.len() == start {
        return None;
    }
    let mut i: usize = start;
    let mut total: u64 = 0;
    while i < chars.len()
        invariant
            start <= i <= chars@.len(),
            start <= 1,
            chars@ == text@,
            digits == text@.skip(start as int),
            digits == unsigned_part(text@),
            2 <= radix <= 16,
            total <= max,
            total == digits_worth(digits.take(i - start), radix as nat),
            forall|j: int|
                0 <= j < i - start ==> digit_worth(#[trigger] digits[j]) < radix,
        decreases chars@.len() - i,
    {
        let worth: u64 = worth_of(chars[i]);
        assert(digits[i - start] == chars@[i as int]);
        if worth >= radix {
            return None;
        }
        proof {
            let here = digits.take(i - start + 1);
            assert(here.drop_last() =~= digits.take(i - start));
            assert(here.last() == chars@[i as int]);
            lemma_digits_worth_grows(digits, i - start + 1, radix as nat);
        }
        if worth > max || total > (max - worth) / radix {
            proof {
                let t = total as int;
                let m = max as int;
                let w = worth as int;
                let k = radix as int;
                if w <= m {
                    assert(t * k + w > m) by (nonlinear_arith)
                        requires
                            t > (m - w) / k,
                            k > 0,
                            w <= m,
                    ;
                } else {
                    assert(t * k >= 0) by (nonlinear_arith)
                        requires
                            t >= 0,
                            k > 0,
                    ;
                }
            }
            return None;
        }
        proof {
            let t = total as int;
            let m = max as int;
            let w = worth as int;
            let k = radix as int;
            assert(t * k + w <= m) by (nonlinear_arith)
                requires
                    t <= (m - w) / k,
                    k > 0,
            ;
            assert(t * k >= 0) by (nonlinear_arith)
                requires
                    t >= 0,
                    k > 0,
            ;
        }
        total = total * radix + worth;
        i = i + 1;
    }
    proof {
        assert(digits.take(digits.len() as int) =~= digits);
    }
    Some(total)
}

/// The digit worth `n`, in lower case.
pub open spec fn digit_char(n: nat) -> char {
    if n < 10 {
        (('0' as nat + n) as u8) as char
    } else {
        (('a' as nat + n - 10) as u8) as char
    }
}

/// A number written out in a radix, in lower case, without leading zeros.
pub open spec fn number_text(n: nat, radix: nat) -> Seq<char>
    decreases n,
{
    if radix < 2 || n < radix {
        seq![digit_char(n)]
    } else {
        proof {
            assert(n / radix < n) by (nonlinear_arith)
                requires
                    n >= radix,
                    radix >= 2,
            ;
        }
        number_text(n / radix, radix).push(digit_char(n % radix))
    }
}

/// A number written out in decimal.
pub open spec fn decimal_text(n: nat) -> Seq<char> {
    number_text(n, 10)
}

/// The digit worth `n`.
fn digit_of(n: u64) -> (r: char)
    requires
        n < 16,
    ensures
        r == digit_char(n as nat),
{
    if n < 10 {
        (48u8 + n as u8) as char
    } else {
        (87u8 + n as u8) as char
    }
}

/// Writes a number out in a radix.
pub fn number_out(n: u64, radix: u64) -> (r: String)
    requires
        2 <= radix <= 16,
    ensures
        r@ == number_text(n as nat, radix as nat),
    decreases n,
{
    if n < radix {
        let mut out = String::new();
        out.push(digit_of(n));
        assert(out@ =~= number_text(n as nat, radix as nat));
        out
    } else {
        proof {
            assert(n / radix < n) by (nonlinear_arith)
                requires
                    n >= radix,
                    radix >= 2,
            ;
        }
        let mut out = number_out(n / radix, radix);
        out.push(digit_of(n % radix));
        out
    }
}

/// Writes a number out in decimal.
pub fn decimal(n: u64) -> (r: String)
    ensures
        r@ == decimal_text(n as nat),
{
    number_out(n, 10)
}

/// A number written out is at least one digit, and every character of it is
/// one, so it leads with no sign.
pub proof fn lemma_number_text_is_digits(n: nat, radix: nat)
    requires
        2 <= radix <= 16,
    ensures
        number_text(n, radix).len() > 0,
        all_digits(number_text(n, radix), radix),
        forall|i: int|
            0 <= i < number_text(n, radix).len() ==> ('0' <= #[trigger] number_text(n, radix)[i]
                && number_text(n, radix)[i] <= '9') || ('a' <= number_text(n, radix)[i]
                && number_text(n, radix)[i] <= 'f'),
    decreases n,
{
    if n >= radix {
        assert(n / radix < n) by (nonlinear_arith)
            requires
                n >= radix,
                radix >= 2,
        ;
        assert(n % radix < radix) by (nonlinear_arith)
            requires
                radix >= 2,
        ;
        lemma_number_text_is_digits(n / radix, radix);
    }
}

/// A number written out and read back is the number, wherever it fits.
pub proof fn lemma_number_round_trip(n: nat, radix: nat, max: nat)
    requires
        2 <= radix <= 16,
        n <= max,
    ensures
        number_read(number_text(n, radix), radix, max) == Some(n),
{
    lemma_number_text_is_digits(n, radix);
    lemma_digits_worth_of_text(n, radix);
}

proof fn lemma_digits_worth_of_text(n: nat, radix: nat)
    requires
        2 <= radix <= 16,
    ensures
        digits_worth(number_text(n, radix), radix) == n,
    decreases n,
{
    let text = number_text(n, radix);
    if n < radix {
        assert(text.drop_last() =~= Seq::<char>::empty());
        assert(text.last() == digit_char(n));
        assert(digits_worth(text.drop_last(), radix) == 0);
        assert(0 * radix == 0) by (nonlinear_arith);
    } else {
        assert(n / radix < n && n % radix < radix) by (nonlinear_arith)
            requires
                n >= radix,
                radix >= 2,
        ;
        lemma_digits_worth_of_text(n / radix, radix);
        assert(text.drop_last() =~= number_text(n / radix, radix));
        assert((n / radix) * radix + n % radix == n) by (nonlinear_arith)
            requires
                radix >= 2,
        ;
    }
}

/// A run of digits is worth less than one more digit's place.
pub proof fn lemma_digits_worth_bound(s: Seq<char>, radix: nat)
    requires
        all_digits(s, radix),
        radix >= 2,
    ensures
        digits_worth(s, radix) < place(radix, s.len()),
    decreases s.len(),
{
    if s.len() > 0 {
        let short = s.drop_last();
        assert forall|i: int| 0 <= i < short.len() implies digit_worth(#[trigger] short[i])
            < radix by {
            assert(short[i] == s[i]);
        }
        lemma_digits_worth_bound(short, radix);
        assert(digit_worth(s[s.len() - 1]) < radix);
        let w = digits_worth(short, radix);
        let p = place(radix, short.len());
        let d = digit_worth(s.last());
        assert(w * radix + d < p * radix) by (nonlinear_arith)
            requires
                w + 1 <= p,
                d < radix,
        ;
    }
}

/// What one digit is worth `len` places up.
pub open spec fn place(radix: nat, len: nat) -> nat
    decreases len,
{
    if len == 0 {
        1
    } else {
        place(radix, (len - 1) as nat) * radix
    }
}

/// A number in hexadecimal, in lower case, padded with zeros to a width.
pub open spec fn padded_hex(n: nat, width: nat) -> Seq<char>
    decreases width,
{
    if width == 0 {
        Seq::empty()
    } else {
        padded_hex(n / 16, (width - 1) as nat).push(digit_char(n % 16))
    }
}

/// Writes a number out in hexadecimal, padded to a width.
pub fn hex_padded(n: u64, width: u64) -> (r: String)
    ensures
        r@ == padded_hex(n as nat, width as nat),
    decreases width,
{
    if width == 0 {
        let out = String::new();
        assert(out@ =~= padded_hex(n as nat, 0));
        out
    } else {
        let mut out = hex_padded(n / 16, width - 1);
        out.push(digit_of(n % 16));
        out
    }
}

/// A padded number is exactly that wide, all digits, and worth the number
/// where that fits.
pub proof fn lemma_padded_hex(n: nat, width: nat)
    ensures
        padded_hex(n, width).len() == width,
        all_digits(padded_hex(n, width), 16),
        n < place(16, width) ==> digits_worth(padded_hex(n, width), 16) == n,
        forall|i: int| 0 <= i < width ==> #[trigger] padded_hex(n, width)[i] != '+',
    decreases width,
{
    if width > 0 {
        let shorter = (width - 1) as nat;
        lemma_padded_hex(n / 16, shorter);
        let text = padded_hex(n, width);
        assert(text.drop_last() =~= padded_hex(n / 16, shorter));
        assert(text.last() == digit_char(n % 16));
        if n < place(16, width) {
            assert(n / 16 < place(16, shorter)) by (nonlinear_arith)
                requires
                    n < place(16, shorter) * 16,
            ;
        }
    }
}

// ---------------------------------------------------------------------------
// Pieces

/// The pieces of a text between separators: one more than there are of those.
pub open spec fn pieces(s: Seq<char>, sep: char) -> Seq<Seq<char>>
    decreases s.len(),
{
    if s.len() == 0 {
        seq![Seq::<char>::empty()]
    } else {
        let before = pieces(s.drop_last(), sep);
        if s.last() == sep {
            before.push(Seq::empty())
        } else {
            before.drop_last().push(before.last().push(s.last()))
        }
    }
}

/// Several texts over plain text.
pub open spec fn text_views(texts: Seq<String>) -> Seq<Seq<char>> {
    texts.map_values(|t: String| t@)
}

/// There is always a piece.
pub proof fn lemma_pieces_never_none(s: Seq<char>, sep: char)
    ensures
        pieces(s, sep).len() >= 1,
    decreases s.len(),
{
    if s.len() > 0 {
        lemma_pieces_never_none(s.drop_last(), sep);
    }
}

/// Splits a text at every separator.
pub fn split_on(text: &str, sep: char) -> (r: Vec<String>)
    ensures
        text_views(r@) == pieces(text@, sep),
{
    let chars = chars_of(text);
    let mut done: Vec<String> = Vec::new();
    let mut current = String::new();
    let mut i: usize = 0;
    proof {
        assert(text@.take(0) =~= Seq::<char>::empty());
        assert(text_views(done@).push(current@) =~= pieces(text@.take(0), sep));
    }
    while i < chars.len()
        invariant
            i <= chars@.len(),
            chars@ == text@,
            text_views(done@).push(current@) == pieces(text@.take(i as int), sep),
        decreases chars@.len() - i,
    {
        let c: char = chars[i];
        let ghost was = text_views(done@);
        let ghost held = current@;
        proof {
            assert(text@.take(i + 1).drop_last() =~= text@.take(i as int));
            assert(was.push(held).drop_last() =~= was);
            assert(was.push(held).last() == held);
        }
        if c == sep {
            done.push(current);
            current = String::new();
            proof {
                assert(text_views(done@) =~= was.push(held));
                assert(text_views(done@).push(current@) =~= pieces(text@.take(i + 1), sep));
            }
        } else {
            current.push(c);
            proof {
                assert(text_views(done@).push(current@) =~= pieces(text@.take(i + 1), sep));
            }
        }
        i = i + 1;
    }
    let ghost was = text_views(done@);
    let ghost held = current@;
    done.push(current);
    proof {
        assert(text@.take(text@.len() as int) =~= text@);
        assert(text_views(done@) =~= was.push(held));
    }
    done
}

/// Text without a separator is one piece.
pub proof fn lemma_one_piece(s: Seq<char>, sep: char)
    requires
        !s.contains(sep),
    ensures
        pieces(s, sep) == seq![s],
    decreases s.len(),
{
    if s.len() > 0 {
        assert(s.last() != sep) by {
            assert(s[s.len() - 1] == s.last());
        }
        assert forall|i: int| 0 <= i < s.drop_last().len() implies s.drop_last()[i] != sep by {
            assert(s[i] == s.drop_last()[i]);
        }
        lemma_one_piece(s.drop_last(), sep);
        assert(s.drop_last().push(s.last()) =~= s);
        assert(pieces(s, sep) =~= seq![s]);
    } else {
        assert(s =~= Seq::<char>::empty());
    }
}

/// A separator and a piece without one, after any text, add that piece.
pub proof fn lemma_one_more_piece(s: Seq<char>, tail: Seq<char>, sep: char)
    requires
        !tail.contains(sep),
    ensures
        pieces(s + seq![sep] + tail, sep) == pieces(s, sep).push(tail),
    decreases tail.len(),
{
    let whole = s + seq![sep] + tail;
    if tail.len() == 0 {
        assert(whole.drop_last() =~= s);
        assert(whole.last() == sep);
        assert(tail =~= Seq::<char>::empty());
    } else {
        let short = tail.drop_last();
        assert(tail.last() != sep) by {
            assert(tail[tail.len() - 1] == tail.last());
        }
        assert forall|i: int| 0 <= i < short.len() implies short[i] != sep by {
            assert(tail[i] == short[i]);
        }
        lemma_one_more_piece(s, short, sep);
        assert(whole.drop_last() =~= s + seq![sep] + short);
        assert(whole.last() == tail.last());
        assert(short.push(tail.last()) =~= tail);
        let before = pieces(whole.drop_last(), sep);
        assert(before == pieces(s, sep).push(short));
        assert(before.drop_last() =~= pieces(s, sep));
        assert(before.last() == short);
    }
}

} // verus!
