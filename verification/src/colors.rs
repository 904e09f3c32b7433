//! Display colors, and Quake `^N` color codes in chat text.
use vstd::prelude::*;

use crate::protocol::Team;
use crate::text;

verus! {

/// An opaque color.
#[derive(Debug, Clone, Copy, PartialEq, Eq, Structural)]
pub struct Rgb {
    pub r: u8,
    pub g: u8,
    pub b: u8,
}

/// A color by its red, green and blue part.
pub open spec fn rgb(r: u8, g: u8, b: u8) -> Rgb {
    Rgb { r, g, b }
}

/// The color for the text before the first code, and for the code `^7`.
pub open spec fn white() -> Rgb {
    rgb(220, 220, 220)
}

/// The color of the code with this character; none for a character that is no code.
///
/// | Code | Color | RGB |
/// |------|-------|-----|
/// | `^0` | Black | (25, 25, 25) |
/// | `^1` | Red | (215, 15, 15) |
/// | `^2` | Green | (15, 200, 15) |
/// | `^3` | Yellow | (220, 220, 15) |
/// | `^4` | Blue | (15, 15, 200) |
/// | `^5` | Cyan | (15, 210, 210) |
/// | `^6` | Magenta | (210, 15, 210) |
/// | `^7` | White | (220, 220, 220) |
pub open spec fn code_color(c: char) -> Option<Rgb> {
    if c == '0' {
        Some(rgb(25, 25, 25))
    } else if c == '1' {
        Some(rgb(215, 15, 15))
    } else if c == '2' {
        Some(rgb(15, 200, 15))
    } else if c == '3' {
        Some(rgb(220, 220, 15))
    } else if c == '4' {
        Some(rgb(15, 15, 200))
    } else if c == '5' {
        Some(rgb(15, 210, 210))
    } else if c == '6' {
        Some(rgb(210, 15, 210))
    } else if c == '7' {
        Some(rgb(220, 220, 220))
    } else {
        None
    }
}

/// The color of the code with this character.
pub fn quake_color(c: char) -> (r: Option<Rgb>)
    ensures
        r == code_color(c),
{
    match c {
        '0' => Some(Rgb { r: 25, g: 25, b: 25 }),
        '1' => Some(Rgb { r: 215, g: 15, b: 15 }),
        '2' => Some(Rgb { r: 15, g: 200, b: 15 }),
        '3' => Some(Rgb { r: 220, g: 220, b: 15 }),
        '4' => Some(Rgb { r: 15, g: 15, b: 200 }),
        '5' => Some(Rgb { r: 15, g: 210, b: 210 }),
        '6' => Some(Rgb { r: 210, g: 15, b: 210 }),
        '7' => Some(Rgb { r: 220, g: 220, b: 220 }),
        _ => None,
    }
}

/// The display color of a team.
pub open spec fn team_color(team: Team) -> Rgb {
    match team {
        Team::Red => rgb(220, 80, 80),
        Team::Blue => rgb(80, 140, 220),
        Team::NoTeam => rgb(200, 200, 200),
    }
}

/// The display color of a team.
pub fn team_to_color(team: Team) -> (r: Rgb)
    ensures
        r == team_color(team),
{
    match team {
        Team::Red => Rgb { r: 220, g: 80, b: 80 },
        Team::Blue => Rgb { r: 80, g: 140, b: 220 },
        Team::NoTeam => Rgb { r: 200, g: 200, b: 200 },
    }
}

// ── Spans ─────────────────────────────────────────────────────────────────────

/// Whether `s` begins with a color code.
pub open spec fn at_code(s: Seq<char>) -> bool {
    s.len() >= 2 && s[0] == '^' && code_color(s[1]) is Some
}

/// How many characters at the front of `s` belong together: a caret goes with the character after
/// it, every other character stands alone.
pub open spec fn unit_len(s: Seq<char>) -> int {
    if s.len() >= 2 && s[0] == '^' {
        2
    } else {
        1
    }
}

/// The spans of `s` where `span`, in `color`, is under way: a code ends the span and begins the
/// next in its color, and everything else goes into the span as it is.
pub open spec fn spans_from(s: Seq<char>, color: Rgb, span: Seq<char>) -> Seq<(Rgb, Seq<char>)>
    decreases s.len(),
{
    if s.len() == 0 {
        seq![(color, span)]
    } else if at_code(s) {
        seq![(color, span)] + spans_from(s.skip(2), code_color(s[1])->0, Seq::empty())
    } else {
        spans_from(s.skip(unit_len(s)), color, span + s.take(unit_len(s)))
    }
}

/// The colored spans of a text; none for the empty text.
pub open spec fn spans_of(s: Seq<char>) -> Seq<(Rgb, Seq<char>)> {
    if s.len() == 0 {
        Seq::empty()
    } else {
        spans_from(s, white(), Seq::empty())
    }
}

/// The views of a list of spans.
pub open spec fn spans_view(s: Seq<(Rgb, String)>) -> Seq<(Rgb, Seq<char>)> {
    Seq::new(s.len(), |i: int| (s[i].0, s[i].1@))
}

/// Splits a text with Quake `^N` color codes into colored spans.
///
/// A caret that ends the text, or that no color digit follows, is literal text, together with the
/// character after it. Empty spans, as between two codes, are kept.
pub fn parse_colors(text: &str) -> (spans: Vec<(Rgb, String)>)
    ensures
        spans_view(spans@) == spans_of(text@),
{
    let mut result: Vec<(Rgb, String)> = Vec::new();
    if text.is_empty() {
        assert(spans_view(result@) =~= Seq::empty());
        return result;
    }
    let chars = text::chars_of(text);
    let len = chars.len();
    let mut color = Rgb { r: 220, g: 220, b: 220 };
    let mut span = String::new();
    let mut i: usize = 0;
    assert(chars@.skip(0) =~= chars@);
    assert(spans_view(result@) + spans_from(chars@, color, span@) =~= spans_of(text@));
    while i < len
        invariant
            i <= len == chars@.len(),
            chars@ == text@,
            spans_view(result@) + spans_from(chars@.skip(i as int), color, span@) == spans_of(
                text@,
            ),
        decreases len - i,
    {
        let ghost rest = chars@.skip(i as int);
        if chars[i] == '^' && i + 1 < len {
            let next = chars[i + 1];
            assert(rest.skip(2) =~= chars@.skip(i + 2));
            match quake_color(next) {
                Some(c) => {
                    let ghost done = result@;
                    let ghost ended = span@;
                    result.push((color, span));
                    assert(spans_view(result@) =~= spans_view(done).push((color, ended)));
                    assert(spans_view(done) + (seq![(color, ended)] + spans_from(
                        rest.skip(2),
                        c,
                        Seq::empty(),
                    )) =~= spans_view(result@) + spans_from(rest.skip(2), c, Seq::empty()));
                    color = c;
                    span = String::new();
                },
                None => {
                    let ghost before = span@;
                    span.push('^');
                    span.push(next);
                    assert(span@ =~= before + rest.take(2));
                },
            }
            i += 2;
        } else {
            let ghost before = span@;
            span.push(chars[i]);
            assert(span@ =~= before + rest.take(1));
            assert(rest.skip(1) =~= chars@.skip(i + 1));
            i += 1;
        }
    }
    let ghost done = result@;
    let ghost last = span@;
    result.push((color, span));
    assert(spans_view(result@) =~= spans_view(done) + seq![(color, last)]);
    result
}

/// The spans that show: those that are not empty.
pub open spec fn shown(spans: Seq<(Rgb, Seq<char>)>) -> Seq<(Rgb, Seq<char>)> {
    spans.filter(|s: (Rgb, Seq<char>)| s.1.len() > 0)
}

/// The spans of a text that show, in order.
pub fn visible_spans(text: &str) -> (spans: Vec<(Rgb, String)>)
    ensures
        spans_view(spans@) == shown(spans_of(text@)),
{
    let all = parse_colors(text);
    let ghost keep = |s: (Rgb, Seq<char>)| s.1.len() > 0;
    let mut spans: Vec<(Rgb, String)> = Vec::new();
    let mut i: usize = 0;
    assert(spans_view(all@).take(0) =~= Seq::empty());
    assert(spans_view(spans@) =~= Seq::<(Rgb, Seq<char>)>::empty().filter(keep)) by {
        reveal(Seq::filter);
    }
    while i < all.len()
        invariant
            i <= all@.len(),
            keep == (|s: (Rgb, Seq<char>)| s.1.len() > 0),
            spans_view(spans@) == spans_view(all@).take(i as int).filter(keep),
        decreases all@.len() - i,
    {
        let ghost kept = spans@;
        let ghost next = spans_view(all@).take(i + 1);
        assert(next.drop_last() =~= spans_view(all@).take(i as int));
        assert(next.filter(keep) == if keep(next.last()) {
            next.drop_last().filter(keep).push(next.last())
        } else {
            next.drop_last().filter(keep)
        }) by {
            reveal(Seq::filter);
        }
        if !all[i].1.as_str().is_empty() {
            spans.push((all[i].0, all[i].1.clone()));
            assert(spans_view(spans@) =~= spans_view(kept).push(spans_view(all@)[i as int]));
        }
        i += 1;
    }
    assert(spans_view(all@).take(i as int) =~= spans_view(all@));
    spans
}

// ── What the spans are ────────────────────────────────────────────────────────

/// A text without a caret is one white span.
pub proof fn lemma_plain_text_is_one_span(s: Seq<char>)
    requires
        s.len() > 0,
        forall|i: int| 0 <= i < s.len() ==> s[i] != '^',
    ensures
        spans_of(s) == seq![(white(), s)],
{
    lemma_plain_from(s, white(), Seq::empty());
    assert(Seq::<char>::empty() + s =~= s);
}

proof fn lemma_plain_from(s: Seq<char>, color: Rgb, span: Seq<char>)
    requires
        forall|i: int| 0 <= i < s.len() ==> s[i] != '^',
    ensures
        spans_from(s, color, span) == seq![(color, span + s)],
    decreases s.len(),
{
    if s.len() > 0 {
        lemma_plain_from(s.skip(1), color, span + s.take(1));
        assert((span + s.take(1)) + s.skip(1) =~= span + s);
    } else {
        assert(span + s =~= span);
    }
}

/// The text of the spans, one after the other.
pub open spec fn joined_text(spans: Seq<(Rgb, Seq<char>)>) -> Seq<char>
    decreases spans.len(),
{
    if spans.len() == 0 {
        Seq::empty()
    } else {
        spans.first().1 + joined_text(spans.drop_first())
    }
}

/// `s` without its color codes.
pub open spec fn without_codes(s: Seq<char>) -> Seq<char>
    decreases s.len(),
{
    if s.len() == 0 {
        Seq::empty()
    } else if at_code(s) {
        without_codes(s.skip(2))
    } else {
        s.take(unit_len(s)) + without_codes(s.skip(unit_len(s)))
    }
}

/// How many color codes `s` has.
pub open spec fn code_count(s: Seq<char>) -> nat
    decreases s.len(),
{
    if s.len() == 0 {
        0
    } else if at_code(s) {
        1 + code_count(s.skip(2))
    } else {
        code_count(s.skip(unit_len(s)))
    }
}

/// Nothing of a text is lost or moved but its color codes, and each code begins one more span.
pub proof fn lemma_spans_keep_text(s: Seq<char>)
    requires
        s.len() > 0,
    ensures
        joined_text(spans_of(s)) == without_codes(s),
        spans_of(s).len() == code_count(s) + 1,
{
    lemma_spans_from_keep_text(s, white(), Seq::empty());
    assert(Seq::<char>::empty() + without_codes(s) =~= without_codes(s));
}

proof fn lemma_spans_from_keep_text(s: Seq<char>, color: Rgb, span: Seq<char>)
    ensures
        joined_text(spans_from(s, color, span)) == span + without_codes(s),
        spans_from(s, color, span).len() == code_count(s) + 1,
    decreases s.len(),
{
    if s.len() == 0 {
        let spans = spans_from(s, color, span);
        assert(spans.drop_first() =~= Seq::empty());
        assert(joined_text(spans.drop_first()) =~= Seq::empty());
    } else if at_code(s) {
        let next = spans_from(s.skip(2), code_color(s[1])->0, Seq::empty());
        lemma_spans_from_keep_text(s.skip(2), code_color(s[1])->0, Seq::empty());
        assert((seq![(color, span)] + next).drop_first() =~= next);
        assert(Seq::<char>::empty() + without_codes(s.skip(2)) =~= without_codes(s.skip(2)));
    } else {
        let n = unit_len(s);
        lemma_spans_from_keep_text(s.skip(n), color, span + s.take(n));
        assert((span + s.take(n)) + without_codes(s.skip(n)) =~= span + without_codes(s));
    }
}

/// The eight codes have these colors, by their digit, and no other character is a code; the teams
/// have these colors.
pub proof fn lemma_color_tables(c: char)
    ensures
        '0' <= c <= '7' ==> code_color(c) == Some(
            seq![
                Rgb { r: 25, g: 25, b: 25 },
                Rgb { r: 215, g: 15, b: 15 },
                Rgb { r: 15, g: 200, b: 15 },
                Rgb { r: 220, g: 220, b: 15 },
                Rgb { r: 15, g: 15, b: 200 },
                Rgb { r: 15, g: 210, b: 210 },
                Rgb { r: 210, g: 15, b: 210 },
                Rgb { r: 220, g: 220, b: 220 },
            ][c as int - '0' as int],
        ),
        !('0' <= c <= '7') ==> code_color(c) is None,
        white() == (Rgb { r: 220, g: 220, b: 220 }),
        team_color(Team::Red) == (Rgb { r: 220, g: 80, b: 80 }),
        team_color(Team::Blue) == (Rgb { r: 80, g: 140, b: 220 }),
        team_color(Team::NoTeam) == (Rgb { r: 200, g: 200, b: 200 }),
{
}

/// A color is made of its three parts.
pub proof fn lemma_rgb(r: u8, g: u8, b: u8)
    ensures
        rgb(r, g, b).r == r,
        rgb(r, g, b).g == g,
        rgb(r, g, b).b == b,
{
}

/// The digits of the color codes of a text, in order: a caret takes the character after it along,
/// and the two are a code if that is one of the eight digits.
pub open spec fn codes_of(s: Seq<char>) -> Seq<char>
    decreases s.len(),
{
    if s.len() == 0 {
        Seq::empty()
    } else if s.len() >= 2 && s[0] == '^' {
        if '0' <= s[1] <= '7' {
            seq![s[1]] + codes_of(s.skip(2))
        } else {
            codes_of(s.skip(2))
        }
    } else {
        codes_of(s.skip(1))
    }
}

/// The span after the `k`-th code has the color of that code, whatever stands around it, and the
/// first span is white; there is one span more than there are codes.
pub proof fn lemma_span_colors(s: Seq<char>, k: int)
    requires
        s.len() > 0,
    ensures
        spans_of(s).len() == codes_of(s).len() + 1,
        spans_of(s)[0].0 == (Rgb { r: 220, g: 220, b: 220 }),
        1 <= k <= codes_of(s).len() ==> Some(spans_of(s)[k].0) == code_color(codes_of(s)[k - 1]),
{
    lemma_span_colors_from(s, white(), Seq::empty(), k);
}

proof fn lemma_span_colors_from(s: Seq<char>, color: Rgb, span: Seq<char>, k: int)
    ensures
        spans_from(s, color, span).len() == codes_of(s).len() + 1,
        spans_from(s, color, span)[0].0 == color,
        1 <= k <= codes_of(s).len() ==> Some(spans_from(s, color, span)[k].0) == code_color(
            codes_of(s)[k - 1],
        ),
    decreases s.len(),
{
    if s.len() > 0 {
        if at_code(s) {
            lemma_span_colors_from(s.skip(2), code_color(s[1])->0, Seq::empty(), k - 1);
        } else {
            let n = unit_len(s);
            lemma_span_colors_from(s.skip(n), color, span + s.take(n), k);
        }
    }
}

/// A text that holds no code is one white span, with every caret in it.
pub proof fn lemma_text_without_codes(s: Seq<char>)
    requires
        s.len() > 0,
        codes_of(s).len() == 0,
    ensures
        spans_of(s) == seq![(Rgb { r: 220, g: 220, b: 220 }, s)],
{
    lemma_codeless_from(s, white(), Seq::empty());
    assert(Seq::<char>::empty() + s =~= s);
}

proof fn lemma_codeless_from(s: Seq<char>, color: Rgb, span: Seq<char>)
    requires
        codes_of(s).len() == 0,
    ensures
        spans_from(s, color, span) == seq![(color, span + s)],
    decreases s.len(),
{
    if s.len() == 0 {
        assert(span + s =~= span);
    } else {
        let n = unit_len(s);
        lemma_codeless_from(s.skip(n), color, span + s.take(n));
        assert((span + s.take(n)) + s.skip(n) =~= span + s);
    }
}

/// The spans, piece by piece from the front: the end of the text ends the last span; a code ends a
/// span with the text so far and begins an empty one in its color; any other character, and a caret
/// with the character after it that is no code, goes to the end of the span.
pub proof fn lemma_spans_piecewise(
    s: Seq<char>,
    x: char,
    color: Rgb,
    span: Seq<char>,
)
    ensures
        spans_of(Seq::empty()).len() == 0,
        s.len() > 0 ==> spans_of(s) == spans_from(
            s,
            Rgb { r: 220, g: 220, b: 220 },
            Seq::empty(),
        ),
        spans_from(Seq::empty(), color, span) == seq![(color, span)],
        spans_from(seq!['^'], color, span) == seq![(color, span.push('^'))],
        x != '^' ==> spans_from(seq![x] + s, color, span) == spans_from(s, color, span.push(x)),
        code_color(x) matches Some(next) ==> spans_from(seq!['^', x] + s, color, span) == seq![
            (color, span),
        ] + spans_from(s, next, Seq::empty()),
        code_color(x) is None ==> spans_from(seq!['^', x] + s, color, span) == spans_from(
            s,
            color,
            span.push('^').push(x),
        ),
{
    let caret = seq!['^'];
    assert(caret.skip(1) =~= Seq::empty());
    assert(span + caret.take(1) =~= span.push('^'));
    assert(spans_from(caret.skip(1), color, span.push('^')) =~= seq![(color, span.push('^'))]);
    let one = seq![x] + s;
    assert(one.skip(1) =~= s);
    assert(span + one.take(1) =~= span.push(x));
    let two = seq!['^', x] + s;
    assert(two.skip(2) =~= s);
    assert(span + two.take(2) =~= span.push('^').push(x));
}

/// A code changes nothing before it, and after it nothing but the color of the first span: where
/// `a` has no caret, the spans of `a`, a code and `b` are `a` in white, then those of `b`, the first
/// of them in the color of the code.
pub proof fn lemma_code_between(a: Seq<char>, code: char, b: Seq<char>, k: int)
    requires
        forall|i: int| 0 <= i < a.len() ==> a[i] != '^',
        code_color(code) is Some,
        b.len() > 0,
        0 <= k < spans_of(b).len(),
    ensures
        ({
            let spans = spans_of(a + seq!['^', code] + b);
            &&& spans.len() == spans_of(b).len() + 1
            &&& spans[0] == (Rgb { r: 220, g: 220, b: 220 }, a)
            &&& spans[k + 1].1 == spans_of(b)[k].1
            &&& k == 0 ==> Some(spans[k + 1].0) == code_color(code)
            &&& k > 0 ==> spans[k + 1].0 == spans_of(b)[k].0
        }),
{
    let tail = seq!['^', code] + b;
    lemma_plain_prefix(a, tail, white(), Seq::empty());
    assert(a + seq!['^', code] + b =~= a + tail);
    assert(Seq::<char>::empty() + a =~= a);
    lemma_spans_piecewise(b, code, white(), a);
    lemma_recolored(b, code_color(code)->0, white(), Seq::empty(), k);
}

proof fn lemma_plain_prefix(a: Seq<char>, tail: Seq<char>, color: Rgb, span: Seq<char>)
    requires
        forall|i: int| 0 <= i < a.len() ==> a[i] != '^',
    ensures
        spans_from(a + tail, color, span) == spans_from(tail, color, span + a),
    decreases a.len(),
{
    if a.len() == 0 {
        assert(a + tail =~= tail);
        assert(span + a =~= span);
    } else {
        let rest = a.skip(1);
        lemma_plain_prefix(rest, tail, color, span.push(a[0]));
        assert(a + tail =~= seq![a[0]] + (rest + tail));
        lemma_spans_piecewise(rest + tail, a[0], color, span);
        assert(span.push(a[0]) + rest =~= span + a);
    }
}

proof fn lemma_recolored(s: Seq<char>, one: Rgb, other: Rgb, span: Seq<char>, k: int)
    ensures
        spans_from(s, one, span).len() == spans_from(s, other, span).len(),
        spans_from(s, one, span)[0].0 == one,
        0 <= k < spans_from(s, one, span).len() ==> spans_from(s, one, span)[k].1 == spans_from(
            s,
            other,
            span,
        )[k].1,
        0 < k < spans_from(s, one, span).len() ==> spans_from(s, one, span)[k].0 == spans_from(
            s,
            other,
            span,
        )[k].0,
    decreases s.len(),
{
    if s.len() > 0 && !at_code(s) {
        let n = unit_len(s);
        lemma_recolored(s.skip(n), one, other, span + s.take(n), k);
    }
}

/// What shows is picked span by span, in order: a span with text shows as it is, an empty one does
/// not.
pub proof fn lemma_shown(spans: Seq<(Rgb, Seq<char>)>, span: (Rgb, Seq<char>))
    ensures
        shown(Seq::empty()).len() == 0,
        shown(spans.push(span)) == if span.1.len() > 0 {
            shown(spans).push(span)
        } else {
            shown(spans)
        },
{
    reveal(Seq::filter);
    assert(spans.push(span).drop_last() =~= spans);
}

/// The view of a list of spans has their colors and texts, in order.
pub proof fn lemma_spans_view(spans: Seq<(Rgb, String)>)
    ensures
        spans_view(spans).len() == spans.len(),
        forall|i: int|
            0 <= i < spans.len() ==> (#[trigger] spans_view(spans)[i]).0 == spans[i].0
                && spans_view(spans)[i].1 == spans[i].1@,
{
}

} // verus!
