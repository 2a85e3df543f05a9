//! Two-column layout: the logo on the left, the info block on the right.
use vstd::prelude::*;
use vstd::string::*;

use crate::logo::Logo;
use crate::text::{lemma_max_width_bound, lines_text, max_width, no_escape, push_spaces, spaces};
use crate::theme::{lemma_strip_plain_prefix, lemma_strip_styled, strip_ansi, styled, Style};

verus! {

/// Line `i` of the two-column layout. The logo line (or nothing past the
/// logo's end) comes first, styled when coloring and non-empty; when there is
/// an info line, it follows at column `max_width(logo) + gutter`, the padding
/// computed from the plain logo line. With no info line (or an empty one),
/// the logo line stands alone, with no trailing padding.
pub open spec fn column_line(logo: Seq<Seq<char>>, info: Seq<Seq<char>>, i: int, gutter: nat, style: Style, use_color: bool) -> Seq<char> {
    let left = if i < logo.len() { logo[i] } else { Seq::empty() };
    let right = if i < info.len() { info[i] } else { Seq::empty() };
    let shown_left = if use_color && left.len() > 0 { styled(style, left) } else { left };
    if right.len() == 0 {
        shown_left
    } else {
        shown_left + spaces((max_width(logo) - left.len() + gutter) as nat) + right
    }
}

/// The two-column layout: as many lines as the taller column.
pub open spec fn column_lines(logo: Seq<Seq<char>>, info: Seq<Seq<char>>, gutter: nat, style: Style, use_color: bool) -> Seq<Seq<char>> {
    let rows = if logo.len() >= info.len() { logo.len() } else { info.len() };
    Seq::new(rows, |i: int| column_line(logo, info, i, gutter, style, use_color))
}

/// Place `info_lines` to the right of `logo`, separated by `gutter` spaces.
///
/// The info column is aligned to a fixed left offset of `logo.width() + gutter`.
/// Padding is computed from the logo's *visible* width, so coloring the logo
/// never shifts the info column. When one column is taller, the other is padded
/// (logo side) or its lines emitted alone (info exhausted) so no trailing
/// whitespace is produced past the logo.
pub fn combine_columns(logo: &Logo, info_lines: &[String], gutter: usize, logo_style: &Style, use_color: bool) -> (out: Vec<String>)
    requires
        max_width(logo@) + gutter <= usize::MAX,
    ensures
        lines_text(out@) == column_lines(logo@, lines_text(info_lines@), gutter as nat, *logo_style, use_color),
{
    let logo_width = logo.width();
    let height = logo.height();
    let rows = if height >= info_lines.len() { height } else { info_lines.len() };
    let logo_lines = logo.lines();
    let ghost info = lines_text(info_lines@);
    let ghost expected = column_lines(logo@, info, gutter as nat, *logo_style, use_color);
    let mut out: Vec<String> = Vec::with_capacity(rows);
    let mut i: usize = 0;
    while i < rows
        invariant
            i <= rows,
            rows == expected.len(),
            logo_width == max_width(logo@),
            logo_width + gutter <= usize::MAX,
            height == logo@.len(),
            lines_text(logo_lines@) == logo@,
            info == lines_text(info_lines@),
            expected == column_lines(logo@, info, gutter as nat, *logo_style, use_color),
            lines_text(out@) == expected.subrange(0, i as int),
        decreases rows - i,
    {
        let left: &str = if i < height { logo_lines[i].as_str() } else { "" };
        let right: &str = if i < info_lines.len() { info_lines[i].as_str() } else { "" };
        proof {
            reveal_strlit("");
            if i < height {
                lemma_max_width_bound(logo@, i as int);
                assert(left@ == logo@[i as int]);
            }
        }
        let left_len = left.unicode_len();
        let mut line = if use_color && left_len > 0 {
            logo_style.paint(left)
        } else {
            String::from_str(left)
        };
        if right.unicode_len() > 0 {
            push_spaces(&mut line, logo_width - left_len + gutter);
            line.append(right);
        }
        assert(line@ == expected[i as int]);
        let ghost old_out = out@;
        let ghost line_text = line@;
        out.push(line);
        assert(lines_text(out@) =~= lines_text(old_out).push(line_text));
        i = i + 1;
        assert(lines_text(out@) =~= expected.subrange(0, i as int));
    }
    assert(expected.subrange(0, rows as int) =~= expected);
    out
}

/// Line `i` of an uncolored layout has the shape of a two-column line: when
/// there is an info line, the logo line (or nothing), spaces up to column
/// `max_width(logo) + gutter`, then the info line; otherwise the logo line
/// alone, with no trailing padding.
pub open spec fn columned_line(logo: Seq<Seq<char>>, info: Seq<Seq<char>>, gutter: nat, line: Seq<char>, i: int) -> bool {
    let left = if i < logo.len() { logo[i] } else { Seq::<char>::empty() };
    let col = max_width(logo) + gutter;
    if i < info.len() && info[i].len() > 0 {
        &&& left.len() <= col
        &&& line.len() == col + info[i].len()
        &&& line.subrange(0, left.len() as int) == left
        &&& forall|j: int| left.len() <= j < col ==> #[trigger] line[j] == ' '
        &&& line.subrange(col as int, line.len() as int) == info[i]
    } else {
        line == left
    }
}

/// The info column sits at a fixed offset: the layout has as many lines as
/// the taller column, and in every uncolored line with an info line the logo
/// line (or nothing) comes first, spaces fill up to column
/// `max_width(logo) + gutter`, and the info line starts there; a line without
/// info is the logo line alone, with no trailing padding.
pub proof fn law_info_column_aligned(logo: Seq<Seq<char>>, info: Seq<Seq<char>>, gutter: nat, style: Style)
    ensures
        column_lines(logo, info, gutter, style, false).len() == if logo.len() >= info.len() {
            logo.len()
        } else {
            info.len()
        },
        forall|i: int|
            0 <= i < column_lines(logo, info, gutter, style, false).len() ==> columned_line(
                logo,
                info,
                gutter,
                #[trigger] column_lines(logo, info, gutter, style, false)[i],
                i,
            ),
{
    assert forall|i: int| 0 <= i < column_lines(logo, info, gutter, style, false).len() implies columned_line(
        logo,
        info,
        gutter,
        #[trigger] column_lines(logo, info, gutter, style, false)[i],
        i,
    ) by {
        let left = if i < logo.len() { logo[i] } else { Seq::<char>::empty() };
        if i < logo.len() {
            lemma_max_width_bound(logo, i);
        }
        let line = column_lines(logo, info, gutter, style, false)[i];
        if i < info.len() && info[i].len() > 0 {
            let pad = spaces((max_width(logo) - left.len() + gutter) as nat);
            assert(line == left + pad + info[i]);
            assert(line.subrange(0, left.len() as int) =~= left);
            assert forall|j: int| left.len() <= j < max_width(logo) + gutter implies #[trigger] line[j] == ' ' by {
                assert(line[j] == pad[j - left.len()]);
            }
            assert(line.subrange((max_width(logo) + gutter) as int, line.len() as int) =~= info[i]);
        }
    }
}

/// Coloring the logo only adds escape sequences: when neither column holds an
/// escape character, every colored line with its escapes removed is the
/// uncolored line, so the info column stays aligned.
pub proof fn law_color_keeps_columns_text(logo: Seq<Seq<char>>, info: Seq<Seq<char>>, gutter: nat, style: Style)
    requires
        forall|i: int| #![trigger logo[i]] 0 <= i < logo.len() ==> no_escape(logo[i]),
        forall|i: int| #![trigger info[i]] 0 <= i < info.len() ==> no_escape(info[i]),
    ensures
        forall|i: int|
            0 <= i < column_lines(logo, info, gutter, style, true).len() ==> strip_ansi(
                #[trigger] column_lines(logo, info, gutter, style, true)[i],
            ) == column_lines(logo, info, gutter, style, false)[i],
{
    assert forall|i: int| 0 <= i < column_lines(logo, info, gutter, style, true).len() implies strip_ansi(
        #[trigger] column_lines(logo, info, gutter, style, true)[i],
    ) == column_lines(logo, info, gutter, style, false)[i] by {
        let left = if i < logo.len() { logo[i] } else { Seq::<char>::empty() };
        let right = if i < info.len() { info[i] } else { Seq::<char>::empty() };
        if i < logo.len() {
            assert(no_escape(logo[i]));
        }
        if i < info.len() {
            assert(no_escape(info[i]));
        }
        assert(no_escape(left));
        assert(no_escape(right));
        let colored = column_lines(logo, info, gutter, style, true)[i];
        let plain = column_lines(logo, info, gutter, style, false)[i];
        let rest = if right.len() == 0 {
            Seq::<char>::empty()
        } else {
            spaces((max_width(logo) - left.len() + gutter) as nat) + right
        };
        assert(no_escape(rest));
        assert(plain =~= left + rest);
        lemma_strip_plain_prefix(rest, Seq::empty());
        assert(rest + Seq::<char>::empty() =~= rest);
        assert(strip_ansi(Seq::<char>::empty()) =~= Seq::<char>::empty());
        if left.len() > 0 {
            assert(colored =~= styled(style, left) + rest);
            lemma_strip_styled(style, left, rest);
        } else {
            assert(colored =~= plain);
            lemma_strip_plain_prefix(plain, Seq::empty());
            assert(plain + Seq::<char>::empty() =~= plain);
        }
    }
}

/// With color on, every non-empty logo line is painted in the logo style: the
/// colored line starts with the styled logo line.
pub proof fn law_logo_painted_in_style(logo: Seq<Seq<char>>, info: Seq<Seq<char>>, gutter: nat, style: Style)
    ensures
        forall|i: int|
            0 <= i < logo.len() && logo[i].len() > 0 ==> {
                let line = #[trigger] column_lines(logo, info, gutter, style, true)[i];
                &&& styled(style, logo[i]).len() <= line.len()
                &&& line.subrange(0, styled(style, logo[i]).len() as int) == styled(style, logo[i])
            },
{
    assert forall|i: int| 0 <= i < logo.len() && logo[i].len() > 0 implies {
        let line = #[trigger] column_lines(logo, info, gutter, style, true)[i];
        &&& styled(style, logo[i]).len() <= line.len()
        &&& line.subrange(0, styled(style, logo[i]).len() as int) == styled(style, logo[i])
    } by {
        let line = column_lines(logo, info, gutter, style, true)[i];
        let head = styled(style, logo[i]);
        assert(line.subrange(0, head.len() as int) =~= head);
    }
}

} // verus!
