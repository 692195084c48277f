use vstd::prelude::*;

verus! {

/// The number of bytes to skip from `pos` to reach the next multiple of `align`.
pub open spec fn padding(pos: int, align: int) -> int {
    (align - pos % align) % align
}

/// Bytes to skip so that `first_free_addr` plus the skip is a multiple of
/// `alignment`.
pub fn calc_byte_skip_for_alignment(first_free_addr: usize, alignment: usize) -> (r: usize)
    requires
        alignment > 0,
    ensures
        r as int == padding(first_free_addr as int, alignment as int),
        r < alignment,
{
    (alignment - first_free_addr % alignment) % alignment
}

/// Skipping the padding lands on a multiple of the alignment, less than one
/// alignment further on.
pub proof fn lemma_padding_aligns(pos: int, align: int)
    requires
        pos >= 0,
        align > 0,
    ensures
        0 <= padding(pos, align) < align,
        (pos + padding(pos, align)) % align == 0,
{
    let r = pos % align;
    let q = pos / align;
    assert(pos == q * align + r && 0 <= r < align) by (nonlinear_arith)
        requires
            align > 0,
            r == pos % align,
            q == pos / align,
    ;
    if r == 0 {
        assert(padding(pos, align) == 0) by (nonlinear_arith)
            requires
                align > 0,
                r == 0,
                padding(pos, align) == (align - r) % align,
        ;
        assert((pos + 0) % align == 0);
    } else {
        assert(padding(pos, align) == align - r) by (nonlinear_arith)
            requires
                align > 0,
                0 < r < align,
                padding(pos, align) == (align - r) % align,
        ;
        assert((pos + (align - r)) % align == 0) by (nonlinear_arith)
            requires
                align > 0,
                pos == q * align + r,
        ;
    }
}

} // verus!
