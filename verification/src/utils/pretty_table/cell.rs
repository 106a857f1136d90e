//! The text of one cell: cut, folded, or padded to a width.
use vstd::prelude::*;

use super::style::TextAlignment;
use crate::text;

verus! {

/// What stands at the end of a cell that was cut.
pub open spec fn ellipsis() -> Seq<char> {
    seq!['.', '.', '.']
}

/// A text cut to a width. A cut text ends with the ellipsis where there is room
/// for more than that.
pub open spec fn fitted(s: Seq<char>, width: nat) -> Seq<char> {
    if s.len() <= width {
        s
    } else if width <= ellipsis().len() {
        s.take(width as int)
    } else {
        s.take(width - ellipsis().len()) + ellipsis()
    }
}

/// A text cut into pieces of a width; the last piece may be shorter. An empty
/// text is one piece, and so is every text where the width is zero.
pub open spec fn wrapped(s: Seq<char>, width: nat) -> Seq<Seq<char>>
    decreases s.len(),
{
    if width == 0 || s.len() <= width {
        seq![s]
    } else {
        seq![s.take(width as int)] + wrapped(s.skip(width as int), width)
    }
}

/// `n` spaces.
pub open spec fn spaces(n: nat) -> Seq<char> {
    Seq::new(n, |i: int| ' ')
}

/// A text with spaces around it so that it is `width` wide. Where the spaces
/// cannot be shared out evenly around a centred text, one more stands behind it.
pub open spec fn padded(s: Seq<char>, width: nat, alignment: TextAlignment) -> Seq<char> {
    let pad: nat = if s.len() < width {
        (width - s.len()) as nat
    } else {
        0
    };
    match alignment {
        TextAlignment::Left => s + spaces(pad),
        TextAlignment::Center => spaces(pad / 2) + s + spaces((pad + 1) / 2),
        TextAlignment::Right => spaces(pad) + s,
    }
}

/// A cut text is no wider than asked for, and starts as the text does: it is
/// the text itself where that fits.
pub proof fn law_fitted_cells_keep_to_the_width(s: Seq<char>, width: nat)
    ensures
        fitted(s, width).len() <= width,
        s.len() > width ==> fitted(s, width).len() == width,
        s.len() <= width ==> fitted(s, width) == s,
        s.len() > width && width > ellipsis().len() ==> fitted(s, width).take(
            width - ellipsis().len(),
        ) == s.take(width - ellipsis().len()) && fitted(s, width).skip(width - ellipsis().len())
            == ellipsis(),
{
}

/// Folding drops nothing and adds nothing: the pieces, one after the other, are
/// the text. No piece is wider than asked for, and there is at least one.
pub proof fn law_wrapping_keeps_all_text(s: Seq<char>, width: nat)
    ensures
        wrapped(s, width).flatten() == s,
        wrapped(s, width).len() > 0,
        width > 0 ==> forall|i: int|
            0 <= i < wrapped(s, width).len() ==> (#[trigger] wrapped(s, width)[i]).len() <= width,
    decreases s.len(),
{
    let pieces = wrapped(s, width);
    if width == 0 || s.len() <= width {
        assert(pieces.drop_first() == Seq::<Seq<char>>::empty());
        assert(pieces.drop_first().flatten() == Seq::<char>::empty());
        assert(pieces.flatten() == pieces.first() + pieces.drop_first().flatten());
    } else {
        let rest = s.skip(width as int);
        law_wrapping_keeps_all_text(rest, width);
        assert(pieces.drop_first() == wrapped(rest, width));
        assert(pieces.flatten() == s.take(width as int) + rest);
        assert forall|i: int| 0 <= i < pieces.len() implies (#[trigger] pieces[i]).len()
            <= width by {
            if i > 0 {
                assert(pieces[i] == wrapped(rest, width)[i - 1]);
            }
        }
    }
}

/// A padded text is as wide as asked for, unless it is wider by itself.
pub proof fn law_padded_cells_fill_the_width(s: Seq<char>, width: nat, alignment: TextAlignment)
    ensures
        s.len() <= width ==> padded(s, width, alignment).len() == width,
        s.len() > width ==> padded(s, width, alignment) == s,
{
    if s.len() > width {
        assert(padded(s, width, alignment) =~= s);
    }
}

/// Split `s` into chunks of at most `width` characters, preserving order, so a
/// long cell can be rendered across multiple lines. Always returns at least one
/// (possibly empty) line.
pub fn wrap_cell(s: &str, width: usize) -> (r: Vec<String>)
    ensures
        r.deep_view() == wrapped(s@, width as nat),
{
    let chars = text::chars_of(s);
    let n: usize = chars.len();
    let mut out: Vec<String> = Vec::new();
    let mut from: usize = 0;
    assert(s@.skip(0) == s@);
    assert(out.deep_view() + wrapped(s@.skip(0), width as nat) =~= wrapped(s@, width as nat));
    while width > 0 && n - from > width
        invariant
            chars@ == s@,
            n == chars@.len(),
            from <= n,
            out.deep_view() + wrapped(s@.skip(from as int), width as nat) == wrapped(
                s@,
                width as nat,
            ),
        decreases n - from,
    {
        let ghost before = out.deep_view();
        let ghost rest = s@.skip(from as int);
        let piece = text::text_of(&chars, from, from + width);
        assert(piece@ == rest.take(width as int));
        assert(rest.skip(width as int) == s@.skip(from + width));
        out.push(piece);
        assert(out.deep_view() =~= before.push(piece@));
        from = from + width;
        assert(out.deep_view() + wrapped(s@.skip(from as int), width as nat) =~= before + wrapped(
            rest,
            width as nat,
        ));
    }
    let ghost before = out.deep_view();
    let piece = text::text_of(&chars, from, n);
    assert(piece@ == s@.skip(from as int));
    out.push(piece);
    assert(out.deep_view() =~= before + seq![piece@]);
    out
}

/// Truncate `s` to `width` display columns, ending with `...` when it overflows.
pub fn fit_cell(s: &str, width: usize) -> (r: String)
    ensures
        r@ == fitted(s@, width as nat),
{
    let chars = text::chars_of(s);
    if chars.len() <= width {
        return s.to_owned();
    }
    if width <= 3 {
        let r = text::text_of(&chars, 0, width);
        assert(r@ == s@.take(width as int));
        return r;
    }
    let mut out = text::text_of(&chars, 0, width - 3);
    assert(out@ == s@.take(width - 3));
    out.push('.');
    out.push('.');
    out.push('.');
    assert(out@ == fitted(s@, width as nat));
    out
}

/// Puts `n` spaces at the end of a text.
fn push_spaces(s: &mut String, n: usize)
    ensures
        final(s)@ == old(s)@ + spaces(n as nat),
{
    let ghost start = s@;
    for i in 0..n
        invariant
            s@ == start + spaces(i as nat),
    {
        s.push(' ');
        assert(spaces((i + 1) as nat) =~= spaces(i as nat).push(' '));
    }
}

/// Puts spaces around `s` so that it is `width` wide.
pub fn pad_cell(s: &str, width: usize, alignment: TextAlignment) -> (r: String)
    ensures
        r@ == padded(s@, width as nat, alignment),
{
    let n: usize = s.unicode_len();
    let pad: usize = if n < width {
        width - n
    } else {
        0
    };
    let (before, after): (usize, usize) = match alignment {
        TextAlignment::Left => (0, pad),
        TextAlignment::Center => (pad / 2, pad - pad / 2),
        TextAlignment::Right => (pad, 0),
    };
    let mut out = String::new();
    push_spaces(&mut out, before);
    out.append(s);
    push_spaces(&mut out, after);
    assert(out@ =~= padded(s@, width as nat, alignment));
    out
}

/// A padded text stands at the left, at the right, or in the middle, with an odd space
/// behind it, and everything around it is spaces.
pub proof fn law_padded_texts_stand_in_their_place(
    s: Seq<char>,
    width: nat,
    alignment: TextAlignment,
    i: int,
)
    requires
        s.len() <= width,
        0 <= i < width,
    ensures
        ({
            let at: int = match alignment {
                TextAlignment::Left => 0,
                TextAlignment::Center => (width - s.len()) / 2,
                TextAlignment::Right => width - s.len(),
            };
            let out = padded(s, width, alignment);
            &&& out.len() == width
            &&& at <= i < at + s.len() ==> out[i] == s[i - at]
            &&& !(at <= i < at + s.len()) ==> out[i] == ' '
        }),
{
}

/// Every piece of a folded text is as wide as asked for, but for the last, which is
/// not empty unless the text is.
pub proof fn law_pieces_are_full_but_for_the_last(s: Seq<char>, width: nat, i: int)
    requires
        width > 0,
        0 <= i < wrapped(s, width).len(),
    ensures
        i < wrapped(s, width).len() - 1 ==> wrapped(s, width)[i].len() == width,
        s.len() > 0 ==> wrapped(s, width)[i].len() > 0,
    decreases s.len(),
{
    if s.len() > width {
        let rest = s.skip(width as int);
        law_wrapping_keeps_all_text(rest, width);
        if i > 0 {
            law_pieces_are_full_but_for_the_last(rest, width, i - 1);
            assert(wrapped(s, width)[i] == wrapped(rest, width)[i - 1]);
        }
    }
}

/// A text that is cut where there is no room for the mark is the start of the text;
/// else it ends with three dots.
pub proof fn law_cut_texts_end_with_dots(s: Seq<char>, width: nat)
    requires
        s.len() > width,
    ensures
        width <= 3 ==> fitted(s, width) == s.take(width as int),
        width > 3 ==> fitted(s, width) == s.take(width - 3) + seq!['.', '.', '.'],
{
}

} // verus!
