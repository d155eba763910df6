use vstd::prelude::*;

verus! {

/// The ANSI colours that console output can be wrapped in.
#[allow(non_camel_case_types, clippy::upper_case_acronyms)]
#[derive(Debug, Clone, Copy, PartialEq, Eq, Structural)]
pub enum ColorCode {
    RED,
    GREEN,
    YELLOW,
    BLUE,
    MAGENTA,
    CYAN,
    WHITE,
}

/// The SGR foreground code of each colour.
pub open spec fn color_value(c: ColorCode) -> u8 {
    match c {
        ColorCode::RED => 31,
        ColorCode::GREEN => 32,
        ColorCode::YELLOW => 33,
        ColorCode::BLUE => 34,
        ColorCode::MAGENTA => 35,
        ColorCode::CYAN => 36,
        ColorCode::WHITE => 37,
    }
}

/// The escape sequence that switches the console to colour `c`.
pub open spec fn escape(c: ColorCode) -> Seq<u8> {
    seq![0x1bu8, 0x5bu8, (0x30 + color_value(c) / 10) as u8, (0x30 + color_value(c) % 10) as u8, 0x6du8]
}

impl ColorCode {
    pub fn code(self) -> (r: u8)
        ensures
            r == color_value(self),
            31 <= r <= 37,
    {
        match self {
            ColorCode::RED => 31,
            ColorCode::GREEN => 32,
            ColorCode::YELLOW => 33,
            ColorCode::BLUE => 34,
            ColorCode::MAGENTA => 35,
            ColorCode::CYAN => 36,
            ColorCode::WHITE => 37,
        }
    }
}

fn push_escape(out: &mut Vec<u8>, c: ColorCode)
    ensures
        final(out)@ == old(out)@ + escape(c),
{
    let v = c.code();
    out.push(0x1b);
    out.push(0x5b);
    out.push(0x30 + v / 10);
    out.push(0x30 + v % 10);
    out.push(0x6d);
    proof {
        assert(final(out)@ =~= old(out)@ + escape(c));
    }
}

/// `text` switched to colour `color`, then back to `restore`.
pub fn with_color(color: ColorCode, restore: ColorCode, text: &[u8]) -> (r: Vec<u8>)
    ensures
        r@ == escape(color) + text@ + escape(restore),
{
    let mut out: Vec<u8> = Vec::new();
    push_escape(&mut out, color);
    let mut k: usize = 0;
    while k < text.len()
        invariant
            0 <= k <= text@.len(),
            out@ == escape(color) + text@.subrange(0, k as int),
        decreases text@.len() - k,
    {
        out.push(text[k]);
        proof {
            assert(text@.subrange(0, k + 1) =~= text@.subrange(0, k as int).push(text@[k as int]));
        }
        k = k + 1;
    }
    proof {
        assert(text@.subrange(0, text@.len() as int) =~= text@);
    }
    push_escape(&mut out, restore);
    out
}

} // verus!
