//! Unicode block rendering of the transport progress bar.
//!
//! The bar is a row of `block_count` character cells.  Cells that the
//! progress has fully covered show the full block glyph; the cell at the
//! tip shows one of the eight left-block glyphs, picked by which eighth
//! of the cell the progress has reached.  Only the glyph run is built
//! here; colors are the terminal layer's business.

use vstd::prelude::*;
use vstd::string::StringExecFns;
use vstd::arithmetic::div_mod::{
    lemma_div_is_ordered,
    lemma_div_multiples_vanish,
    lemma_div_pos_is_pos,
    lemma_fundamental_div_mod,
    lemma_mod_division_less_than_divisor,
};
use vstd::arithmetic::mul::{lemma_mul_inequality, lemma_mul_is_commutative, lemma_mul_upper_bound};

verus! {

/// The glyph for a cell whose progress has reached `e` eighths: the
/// left-block character that is `e + 1` eighths wide, or the full block
/// once the last eighth is reached.
pub open spec fn tip_char_spec(e: int) -> char {
    if e >= 7 {
        '\u{2588}'
    } else if e == 6 {
        '\u{2589}'
    } else if e == 5 {
        '\u{258a}'
    } else if e == 4 {
        '\u{258b}'
    } else if e == 3 {
        '\u{258c}'
    } else if e == 2 {
        '\u{258d}'
    } else if e == 1 {
        '\u{258e}'
    } else {
        '\u{258f}'
    }
}

/// For a positive divisor, comparing a quotient against a bound is the
/// same as comparing the dividend against the bound times the divisor.
proof fn lemma_div_ge(x: int, d: int, k: int)
    requires
        d >= 1,
        x >= 0,
        k >= 0,
    ensures
        (x / d >= k) <==> (x >= k * d),
{
    if x >= k * d {
        lemma_div_is_ordered(k * d, x, d);
        lemma_mul_is_commutative(k, d);
        lemma_div_multiples_vanish(k, d);
    }
    if x / d >= k {
        lemma_fundamental_div_mod(x, d);
        lemma_mod_division_less_than_divisor(x, d);
        lemma_mul_inequality(k, x / d, d);
        lemma_mul_is_commutative(x / d, d);
        lemma_mul_is_commutative(k, d);
    }
}

/// The glyph of one partially covered cell, for a tip progress of
/// `tip_num / tip_den` of the cell's width.  Everything at or above
/// seven eighths rounds up to the full block; everything below one
/// eighth still shows the thinnest sliver, so the tip is always visible.
pub fn render_single_block(tip_num: u64, tip_den: u64) -> (r: &'static str)
    requires
        tip_den >= 1,
    ensures
        r@ == seq![tip_char_spec(8 * tip_num / (tip_den as int))],
{
    let n: u128 = 8 * (tip_num as u128);
    let d: u128 = tip_den as u128;
    let ghost e = 8 * tip_num / (tip_den as int);
    proof {
        lemma_div_ge(8 * tip_num, tip_den as int, 7);
        lemma_div_ge(8 * tip_num, tip_den as int, 6);
        lemma_div_ge(8 * tip_num, tip_den as int, 5);
        lemma_div_ge(8 * tip_num, tip_den as int, 4);
        lemma_div_ge(8 * tip_num, tip_den as int, 3);
        lemma_div_ge(8 * tip_num, tip_den as int, 2);
        lemma_div_ge(8 * tip_num, tip_den as int, 1);
        lemma_div_pos_is_pos(8 * tip_num, tip_den as int);
        reveal_strlit("\u{2588}");
        reveal_strlit("\u{2589}");
        reveal_strlit("\u{258a}");
        reveal_strlit("\u{258b}");
        reveal_strlit("\u{258c}");
        reveal_strlit("\u{258d}");
        reveal_strlit("\u{258e}");
        reveal_strlit("\u{258f}");
    }
    let r: &'static str = if n >= 7 * d {
        "\u{2588}"
    } else if n >= 6 * d {
        "\u{2589}"
    } else if n >= 5 * d {
        "\u{258a}"
    } else if n >= 4 * d {
        "\u{258b}"
    } else if n >= 3 * d {
        "\u{258c}"
    } else if n >= 2 * d {
        "\u{258d}"
    } else if n >= d {
        "\u{258e}"
    } else {
        "\u{258f}"
    };
    proof {
        assert(r@ =~= seq![tip_char_spec(e)]);
    }
    r
}

/// The glyph run of the whole loading bar for a progress of
/// `current / (max - min)`: every cell the progress has passed is a full
/// block, and one tip cell shows the fraction of the cell reached.  The
/// run is never longer than `block_count` cells.
pub open spec fn loading_bar_chars(current: int, length: int, block_count: int) -> Seq<char> {
    let t = current * block_count;
    let amount = t / length;
    let full = if amount < block_count - 1 {
        amount
    } else {
        block_count - 1
    };
    Seq::new(full as nat, |i: int| '\u{2588}') + seq![tip_char_spec(8 * (t % length) / length)]
}

/// Builds the loading bar for a value `current` within the range
/// `min..max`, spread over `block_count` cells.
pub fn render_loading_bar(current: u64, min: u64, max: u64, block_count: u32) -> (r: String)
    requires
        min < max,
        block_count >= 1,
    ensures
        r@ == loading_bar_chars(current as int, (max - min) as int, block_count as int),
        r@.len() <= block_count,
{
    let length: u64 = max - min;
    proof {
        lemma_mul_upper_bound(current as int, u64::MAX as int, block_count as int, u32::MAX as int);
    }
    let t: u128 = (current as u128) * (block_count as u128);
    let amount: u128 = t / (length as u128);
    proof {
        lemma_div_pos_is_pos(t as int, length as int);
    }
    let full: u32 = if amount < ((block_count - 1) as u128) {
        amount as u32
    } else {
        block_count - 1
    };
    proof {
        lemma_fundamental_div_mod(t as int, length as int);
        lemma_mod_division_less_than_divisor(t as int, length as int);
    }
    let frac: u64 = (t % (length as u128)) as u64;
    let mut bar = String::new();
    let mut i: u32 = 0;
    while i < full
        invariant
            0 <= i <= full,
            bar@ =~= Seq::new(i as nat, |j: int| '\u{2588}'),
        decreases full - i,
    {
        proof {
            reveal_strlit("\u{2588}");
        }
        bar.append("\u{2588}");
        proof {
            assert(bar@ =~= Seq::new((i + 1) as nat, |j: int| '\u{2588}'));
        }
        i = i + 1;
    }
    let tip = render_single_block(frac, length);
    bar.append(tip);
    proof {
        assert(bar@ =~= loading_bar_chars(current as int, (max - min) as int, block_count as int));
    }
    bar
}

} // verus!
