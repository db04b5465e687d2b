//! Rendering of resolved frames into the text that the policy matches.

use vstd::prelude::*;

verus! {

/// The number of hex digits that an address is rendered with.
pub const ADDRESS_DIGITS: usize = 16;

/// The lowercase hex digit for `d` (below sixteen).
pub open spec fn digit_char(d: nat) -> char {
    seq!['0', '1', '2', '3', '4', '5', '6', '7', '8', '9', 'a', 'b', 'c', 'd', 'e', 'f'][d as int]
}

/// `n` in decimal, without leading zeros.
pub open spec fn decimal(n: nat) -> Seq<char>
    decreases n,
{
    if n < 10 {
        seq![digit_char(n)]
    } else {
        decimal(n / 10) + seq![digit_char(n % 10)]
    }
}

/// The last `width` hex digits of `n`, padded with zeros.
pub open spec fn hex_fixed(n: nat, width: nat) -> Seq<char>
    decreases width,
{
    if width == 0 {
        Seq::empty()
    } else {
        hex_fixed(n / 16, (width - 1) as nat) + seq![digit_char(n % 16)]
    }
}

/// A resolved frame as a value: address, module path, symbol name.
pub type FrameModel = (usize, Seq<char>, Seq<char>);

/// One line of a rendered trace:
/// `  #<index> at <module>: 0x<address>  <symbol>` and a newline.
pub open spec fn frame_line(index: nat, frame: FrameModel) -> Seq<char> {
    seq![' ', ' ', '#'] + decimal(index) + seq![' ', 'a', 't', ' '] + frame.1 + seq![
        ':',
        ' ',
        '0',
        'x',
    ] + hex_fixed(frame.0 as nat, ADDRESS_DIGITS as nat) + seq![' ', ' '] + frame.2 + seq!['\n']
}

/// The rendered trace: one line per frame, in capture order.
pub open spec fn trace_text(frames: Seq<FrameModel>) -> Seq<char>
    decreases frames.len(),
{
    if frames.len() == 0 {
        Seq::empty()
    } else {
        trace_text(frames.drop_last()) + frame_line((frames.len() - 1) as nat, frames.last())
    }
}

/// A captured address with what the dynamic loader said of it; an empty
/// module or symbol means that nothing was found.
#[derive(Clone, Debug)]
pub struct ResolvedFrame {
    pub address: usize,
    pub module: String,
    pub symbol: String,
}

impl View for ResolvedFrame {
    type V = FrameModel;

    open spec fn view(&self) -> FrameModel {
        (self.address, self.module@, self.symbol@)
    }
}

/// The hex digit for `d` as a one-character string.
fn digit_text(d: usize) -> (r: &'static str)
    requires
        d < 16,
    ensures
        r@ == seq![digit_char(d as nat)],
{
    let digits = "0123456789abcdef";
    proof {
        reveal_strlit("0123456789abcdef");
    }
    let r = digits.substring_char(d, d + 1);
    assert(r@ =~= seq![digit_char(d as nat)]);
    r
}

/// Appends `n` in decimal.
fn append_decimal(out: &mut String, n: usize)
    ensures
        final(out)@ == old(out)@ + decimal(n as nat),
    decreases n,
{
    if n >= 10 {
        append_decimal(out, n / 10);
    }
    out.append(digit_text(n % 10));
    assert(final(out)@ =~= old(out)@ + decimal(n as nat));
}

/// Appends the last `width` hex digits of `n`.
fn append_hex(out: &mut String, n: usize, width: usize)
    ensures
        final(out)@ == old(out)@ + hex_fixed(n as nat, width as nat),
    decreases width,
{
    if width > 0 {
        append_hex(out, n / 16, width - 1);
        out.append(digit_text(n % 16));
        assert(final(out)@ =~= old(out)@ + hex_fixed(n as nat, width as nat));
    } else {
        assert(final(out)@ =~= old(out)@ + hex_fixed(n as nat, width as nat));
    }
}

/// Appends the line of frame `index`.
fn append_frame_line(out: &mut String, index: usize, frame: &ResolvedFrame)
    ensures
        final(out)@ == old(out)@ + frame_line(index as nat, frame@),
{
    proof {
        reveal_strlit("  #");
        reveal_strlit(" at ");
        reveal_strlit(": 0x");
        reveal_strlit("  ");
        reveal_strlit("\n");
    }
    out.append("  #");
    append_decimal(out, index);
    out.append(" at ");
    out.append(frame.module.as_str());
    out.append(": 0x");
    append_hex(out, frame.address, ADDRESS_DIGITS);
    out.append("  ");
    out.append(frame.symbol.as_str());
    out.append("\n");
    assert(final(out)@ =~= old(out)@ + frame_line(index as nat, frame@));
}

/// Renders resolved frames into the trace text, one line per frame.
pub fn format_trace(frames: &Vec<ResolvedFrame>) -> (r: String)
    ensures
        r@ == trace_text(frames@.map_values(|f: ResolvedFrame| f@)),
{
    let ghost model = frames@.map_values(|f: ResolvedFrame| f@);
    let mut out = String::new();
    let mut i: usize = 0;
    while i < frames.len()
        invariant
            model == frames@.map_values(|f: ResolvedFrame| f@),
            i <= frames@.len(),
            out@ == trace_text(model.subrange(0, i as int)),
        decreases frames@.len() - i,
    {
        append_frame_line(&mut out, i, &frames[i]);
        assert(model.subrange(0, i + 1).drop_last() =~= model.subrange(0, i as int));
        i = i + 1;
    }
    assert(model.subrange(0, i as int) =~= model);
    out
}

} // verus!
