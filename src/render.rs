use vstd::prelude::*;

use crate::walk::Glyph;

verus! {

pub open spec fn glyph_text(g: Glyph) -> Seq<char> {
    match g {
        Glyph::Branch => seq!['\u{251c}', '\u{2500}'],
        Glyph::LastBranch => seq!['\u{2514}', '\u{2500}'],
        Glyph::Bar => seq!['\u{2502}', ' '],
        Glyph::Blank => seq![' ', ' '],
    }
}

/// The tree drawing for an indentation: its glyphs side by side.
pub open spec fn indent_text(indent: Seq<Glyph>) -> Seq<char>
    decreases indent.len(),
{
    if indent.len() == 0 {
        Seq::empty()
    } else {
        indent_text(indent.drop_last()) + glyph_text(indent.last())
    }
}

pub open spec fn digit_char(d: nat) -> char {
    seq!['0', '1', '2', '3', '4', '5', '6', '7', '8', '9'][d as int]
}

/// The decimal digits of `n`, without leading zeros.
pub open spec fn decimal(n: nat) -> Seq<char>
    decreases n,
{
    if n < 10 {
        seq![digit_char(n)]
    } else {
        decimal(n / 10).push(digit_char(n % 10))
    }
}

pub open spec fn spaces(n: nat) -> Seq<char> {
    Seq::new(n, |i: int| ' ')
}

/// `s` preceded by blanks up to `width` characters.
pub open spec fn pad_left(s: Seq<char>, width: nat) -> Seq<char> {
    if s.len() < width {
        spaces((width - s.len()) as nat) + s
    } else {
        s
    }
}

/// `s` followed by blanks up to `width` characters.
pub open spec fn pad_right(s: Seq<char>, width: nat) -> Seq<char> {
    if s.len() < width {
        s + spaces((width - s.len()) as nat)
    } else {
        s
    }
}

pub open spec fn bool_text(b: bool) -> Seq<char> {
    if b {
        seq!['t', 'r', 'u', 'e']
    } else {
        seq!['f', 'a', 'l', 's', 'e']
    }
}

/// The terminal escape that sets bold text.
pub open spec fn bold() -> Seq<char> {
    seq!['\u{1b}', '[', '1', 'm']
}

/// The terminal escape that sets dim text.
pub open spec fn dim() -> Seq<char> {
    seq!['\u{1b}', '[', '2', 'm']
}

/// The terminal escape that resets text attributes.
pub open spec fn reset() -> Seq<char> {
    seq!['\u{1b}', '[', '0', 'm']
}

/// The emphasis of a line: bold where the node meets the target, else dim.
pub open spec fn emphasis(contained: bool) -> Seq<char> {
    if contained {
        bold()
    } else {
        dim()
    }
}

/// One line of the containment report:
/// `{total:>5}ms (+{delta:4}ms) {emphasis}{contained:5}{dim} {indent}{reset}{emphasis}{text}{reset}`.
pub open spec fn report_line(
    total_ms: nat,
    delta_ms: nat,
    contained: bool,
    indent: Seq<Glyph>,
    text: Seq<char>,
) -> Seq<char> {
    pad_left(decimal(total_ms), 5) + seq!['m', 's', ' ', '(', '+'] + pad_left(decimal(delta_ms), 4)
        + seq!['m', 's', ')', ' '] + emphasis(contained) + pad_right(bool_text(contained), 5) + dim()
        + seq![' '] + indent_text(indent) + reset() + emphasis(contained) + text + reset()
}

fn push_spaces(out: &mut String, n: usize)
    ensures
        final(out)@ == old(out)@ + spaces(n as nat),
{
    let ghost out0 = out@;
    let mut i: usize = 0;
    while i < n
        invariant
            i <= n,
            out@ == out0 + spaces(i as nat),
        decreases n - i,
    {
        proof {
            reveal_strlit(" ");
        }
        out.append(" ");
        i += 1;
        assert(out@ =~= out0 + spaces(i as nat));
    }
}

fn digit_str(d: u64) -> (r: &'static str)
    requires
        d < 10,
    ensures
        r@ == seq![digit_char(d as nat)],
{
    proof {
        reveal_strlit("0");
        reveal_strlit("1");
        reveal_strlit("2");
        reveal_strlit("3");
        reveal_strlit("4");
        reveal_strlit("5");
        reveal_strlit("6");
        reveal_strlit("7");
        reveal_strlit("8");
        reveal_strlit("9");
    }
    let r = match d {
        0 => "0",
        1 => "1",
        2 => "2",
        3 => "3",
        4 => "4",
        5 => "5",
        6 => "6",
        7 => "7",
        8 => "8",
        _ => "9",
    };
    assert(r@ =~= seq![digit_char(d as nat)]);
    r
}

fn push_decimal(out: &mut String, n: u64)
    ensures
        final(out)@ == old(out)@ + decimal(n as nat),
    decreases n,
{
    let ghost out0 = out@;
    if n >= 10 {
        push_decimal(out, n / 10);
    }
    out.append(digit_str(n % 10));
    assert(out@ =~= out0 + decimal(n as nat));
}

/// Appends the decimal form of `n`, blanks first up to `width` characters.
fn push_padded_decimal(out: &mut String, n: u64, width: usize)
    ensures
        final(out)@ == old(out)@ + pad_left(decimal(n as nat), width as nat),
{
    let ghost out0 = out@;
    let mut digits = String::new();
    push_decimal(&mut digits, n);
    assert(digits@ =~= decimal(n as nat));
    let len = digits.as_str().unicode_len();
    if len < width {
        push_spaces(out, width - len);
    }
    out.append(digits.as_str());
    assert(out@ =~= out0 + pad_left(decimal(n as nat), width as nat));
}

fn glyph_str(g: Glyph) -> (r: &'static str)
    ensures
        r@ == glyph_text(g),
{
    proof {
        reveal_strlit("\u{251c}\u{2500}");
        reveal_strlit("\u{2514}\u{2500}");
        reveal_strlit("\u{2502} ");
        reveal_strlit("  ");
    }
    let r = match g {
        Glyph::Branch => "\u{251c}\u{2500}",
        Glyph::LastBranch => "\u{2514}\u{2500}",
        Glyph::Bar => "\u{2502} ",
        Glyph::Blank => "  ",
    };
    assert(r@ =~= glyph_text(g));
    r
}

fn push_indent(out: &mut String, indent: &Vec<Glyph>)
    ensures
        final(out)@ == old(out)@ + indent_text(indent@),
{
    let ghost out0 = out@;
    let mut i: usize = 0;
    while i < indent.len()
        invariant
            i <= indent.len(),
            out@ == out0 + indent_text(indent@.subrange(0, i as int)),
        decreases indent.len() - i,
    {
        out.append(glyph_str(indent[i]));
        proof {
            let next = indent@.subrange(0, i + 1);
            assert(next.drop_last() =~= indent@.subrange(0, i as int));
            assert(out@ =~= out0 + indent_text(next));
        }
        i += 1;
    }
    assert(indent@.subrange(0, indent@.len() as int) =~= indent@);
}

fn emphasis_str(contained: bool) -> (r: &'static str)
    ensures
        r@ == emphasis(contained),
{
    proof {
        reveal_strlit("\u{1b}[1m");
        reveal_strlit("\u{1b}[2m");
    }
    let r = if contained {
        "\u{1b}[1m"
    } else {
        "\u{1b}[2m"
    };
    assert(r@ =~= emphasis(contained));
    r
}

/// Renders one line of the containment report, as `report_line` states it.
pub fn render_line(
    total_ms: u64,
    delta_ms: u64,
    contained: bool,
    indent: &Vec<Glyph>,
    text: &str,
) -> (r: String)
    ensures
        r@ == report_line(total_ms as nat, delta_ms as nat, contained, indent@, text@),
{
    proof {
        reveal_strlit("ms (+");
        reveal_strlit("ms) ");
        reveal_strlit("true ");
        reveal_strlit("false");
        reveal_strlit("\u{1b}[2m");
        reveal_strlit("\u{1b}[0m");
        reveal_strlit(" ");
    }
    let mut out = String::new();
    push_padded_decimal(&mut out, total_ms, 5);
    out.append("ms (+");
    push_padded_decimal(&mut out, delta_ms, 4);
    out.append("ms) ");
    out.append(emphasis_str(contained));
    if contained {
        out.append("true ");
    } else {
        out.append("false");
    }
    out.append("\u{1b}[2m");
    out.append(" ");
    push_indent(&mut out, indent);
    out.append("\u{1b}[0m");
    out.append(emphasis_str(contained));
    out.append(text);
    out.append("\u{1b}[0m");
    assert(pad_right(bool_text(contained), 5) =~= if contained {
        seq!['t', 'r', 'u', 'e', ' ']
    } else {
        bool_text(contained)
    });
    assert(out@ =~= report_line(total_ms as nat, delta_ms as nat, contained, indent@, text@));
    out
}

} // verus!
