use vstd::prelude::*;

verus! {

/// Red channel of the palette: four times the escape count, kept to eight bits by wrapping.
pub open spec fn red_of(b: u8) -> u8 {
    ((b as int * 4) % 256) as u8
}

/// Maps an escape count to an RGB triple: red grows four times as fast as green and blue.
pub fn color_of(b: u8) -> (r: [u8; 3])
    ensures
        r@ == seq![red_of(b), b, b],
{
    let red: u8 = ((b as u32 * 4) % 256) as u8;
    let r = [red, b, b];
    assert(r@ =~= seq![red_of(b), b, b]);
    r
}

/// Below 64 the red channel is exactly four times the count: no wrapping, no clamping.
pub proof fn lemma_red_exact_below_64(b: u8)
    requires
        b < 64,
    ensures
        red_of(b) == 4 * b,
{
}

} // verus!
