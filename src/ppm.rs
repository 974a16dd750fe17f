use vstd::prelude::*;

verus! {

/// ASCII code of the decimal digit `d`.
pub open spec fn digit(d: nat) -> u8 {
    (48 + d) as u8
}

/// Decimal ASCII form of `n`, without leading zeros.
pub open spec fn decimal(n: nat) -> Seq<u8>
    decreases n,
{
    if n < 10 {
        seq![digit(n)]
    } else {
        decimal(n / 10).push(digit(n % 10))
    }
}

/// The plain-text image header: `P3`, then width and height, then the
/// largest channel value, each on a line of its own.
pub open spec fn header(width: nat, height: nat) -> Seq<u8> {
    seq![80u8, 51u8, 10u8] + decimal(width) + seq![32u8] + decimal(height) + seq![
        10u8,
        50u8,
        53u8,
        53u8,
        10u8,
    ]
}

/// One pixel: its three channels in decimal, separated by spaces, and a newline.
pub open spec fn pixel_line(p: (u8, u8, u8)) -> Seq<u8> {
    decimal(p.0 as nat) + seq![32u8] + decimal(p.1 as nat) + seq![32u8] + decimal(p.2 as nat)
        + seq![10u8]
}

/// The lines of `pixels`, in order.
pub open spec fn pixel_lines(pixels: Seq<(u8, u8, u8)>) -> Seq<u8>
    decreases pixels.len(),
{
    if pixels.len() == 0 {
        Seq::empty()
    } else {
        pixel_lines(pixels.drop_last()) + pixel_line(pixels.last())
    }
}

/// The pixels of `rows` in row-major order: the first row left to right,
/// then the next.
pub open spec fn row_major(rows: Seq<Vec<(u8, u8, u8)>>) -> Seq<(u8, u8, u8)>
    decreases rows.len(),
{
    if rows.len() == 0 {
        Seq::empty()
    } else {
        row_major(rows.drop_last()) + rows.last()@
    }
}

/// Every row holds `width` pixels and there are `height` of them.
pub open spec fn has_shape(rows: Seq<Vec<(u8, u8, u8)>>, width: nat, height: nat) -> bool {
    &&& rows.len() == height
    &&& forall|j: int| 0 <= j < rows.len() ==> rows[j].len() == width
}

/// Appends the decimal form of `n`.
pub fn push_decimal(out: &mut Vec<u8>, n: u32)
    ensures
        final(out)@ == old(out)@ + decimal(n as nat),
    decreases n,
{
    if n >= 10 {
        push_decimal(out, n / 10);
    }
    let d: u32 = n % 10;
    out.push(48u8 + d as u8);
    proof {
        if n < 10 {
            assert(decimal(n as nat) == seq![digit(n as nat)]);
        }
        assert(old(out)@ + decimal(n as nat) =~= final(out)@) by {
            if n >= 10 {
                assert(decimal(n as nat) == decimal((n / 10) as nat).push(digit((n % 10) as nat)));
            }
        }
    }
}

/// The header of a plain-text image of the given size.
pub fn ppm_header(width: u32, height: u32) -> (r: Vec<u8>)
    ensures
        r@ == header(width as nat, height as nat),
{
    let mut out: Vec<u8> = Vec::new();
    out.push(80u8);
    out.push(51u8);
    out.push(10u8);
    push_decimal(&mut out, width);
    out.push(32u8);
    push_decimal(&mut out, height);
    out.push(10u8);
    out.push(50u8);
    out.push(53u8);
    out.push(53u8);
    out.push(10u8);
    assert(out@ =~= header(width as nat, height as nat));
    out
}

/// Appends the line of one pixel.
pub fn push_pixel(out: &mut Vec<u8>, p: (u8, u8, u8))
    ensures
        final(out)@ == old(out)@ + pixel_line(p),
{
    push_decimal(out, p.0 as u32);
    out.push(32u8);
    push_decimal(out, p.1 as u32);
    out.push(32u8);
    push_decimal(out, p.2 as u32);
    out.push(10u8);
    assert(final(out)@ =~= old(out)@ + pixel_line(p));
}

/// A whole plain-text image from rows buffered independently, emitted top
/// row first whatever order they were filled in; `None` when the rows do
/// not form a `width` by `height` image.
pub fn encode_rows(width: u32, height: u32, rows: &Vec<Vec<(u8, u8, u8)>>) -> (r: Option<Vec<u8>>)
    ensures
        r is Some <==> has_shape(rows@, width as nat, height as nat),
        r matches Some(text) ==> text@ == header(width as nat, height as nat) + pixel_lines(
            row_major(rows@),
        ),
{
    if rows.len() != height as usize {
        return None;
    }
    let mut k: usize = 0;
    while k < rows.len()
        invariant
            k <= rows.len(),
            forall|j: int| 0 <= j < k ==> rows@[j].len() == width,
        decreases rows.len() - k,
    {
        if rows[k].len() != width as usize {
            return None;
        }
        k = k + 1;
    }
    let mut out = ppm_header(width, height);
    let mut j: usize = 0;
    while j < rows.len()
        invariant
            j <= rows.len(),
            out@ == header(width as nat, height as nat) + pixel_lines(
                row_major(rows@.subrange(0, j as int)),
            ),
        decreases rows.len() - j,
    {
        let row = &rows[j];
        let ghost done = row_major(rows@.subrange(0, j as int));
        let mut i: usize = 0;
        while i < row.len()
            invariant
                i <= row.len(),
                *row == rows@[j as int],
                out@ == header(width as nat, height as nat) + pixel_lines(
                    done + row@.subrange(0, i as int),
                ),
            decreases row.len() - i,
        {
            push_pixel(&mut out, row[i]);
            proof {
                let s = done + row@.subrange(0, i + 1);
                assert(s.drop_last() =~= done + row@.subrange(0, i as int));
                assert(s.last() == row@[i as int]);
            }
            i = i + 1;
        }
        proof {
            let sub = rows@.subrange(0, j + 1);
            assert(sub.drop_last() =~= rows@.subrange(0, j as int));
            assert(sub.last() == rows@[j as int]);
            assert(row@.subrange(0, row.len() as int) =~= row@);
            assert(row_major(sub) == done + row@);
        }
        j = j + 1;
    }
    assert(rows@.subrange(0, rows.len() as int) =~= rows@);
    Some(out)
}

} // verus!
