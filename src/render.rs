use vstd::prelude::*;
use vstd::string::StringExecFns;

verus! {

/// Number of pixels per rendered row.
pub const ROW_WIDTH: usize = 28;

/// The glyph of one raw pixel: lit where its intensity `b / 255` exceeds one
/// half, that is where `b` exceeds 127.
pub open spec fn glyph(b: u8) -> char {
    if b > 127 {
        '*'
    } else {
        '_'
    }
}

/// The glyphs of one row of pixels.
pub open spec fn row_text(row: Seq<u8>) -> Seq<char> {
    row.map_values(|b: u8| glyph(b))
}

/// The text of an image: rows of `ROW_WIDTH` glyphs (the last one possibly
/// shorter), each followed by a newline.
pub open spec fn rendered(image: Seq<u8>) -> Seq<char>
    decreases image.len(),
{
    if image.len() == 0 {
        seq![]
    } else if image.len() <= ROW_WIDTH {
        row_text(image) + seq!['\n']
    } else {
        row_text(image.take(ROW_WIDTH as int)) + seq!['\n'] + rendered(
            image.skip(ROW_WIDTH as int),
        )
    }
}

/// Renders an image of raw pixels as text, one line per row of `ROW_WIDTH`
/// pixels.
pub fn render_image(image: &[u8]) -> (r: String)
    ensures
        r@ == rendered(image@),
{
    let n: usize = image.len();
    let mut out = String::new();
    let mut start: usize = 0;
    assert(image@.subrange(0, n as int) =~= image@);
    assert(out@ + rendered(image@) =~= rendered(image@));
    while start < n
        invariant
            start <= n,
            n == image@.len(),
            out@ + rendered(image@.subrange(start as int, n as int)) == rendered(image@),
        decreases n - start,
    {
        let ghost rest = image@.subrange(start as int, n as int);
        let end: usize = if n - start <= ROW_WIDTH {
            n
        } else {
            start + ROW_WIDTH
        };
        let ghost before = out@;
        let mut j: usize = start;
        while j < end
            invariant
                start <= j <= end,
                end <= n,
                n == image@.len(),
                out@ == before + row_text(image@.subrange(start as int, j as int)),
            decreases end - j,
        {
            let ghost prev = out@;
            if image[j] > 127 {
                out.append("*");
                proof {
                    reveal_strlit("*");
                    assert("*"@ =~= seq!['*']);
                }
            } else {
                out.append("_");
                proof {
                    reveal_strlit("_");
                    assert("_"@ =~= seq!['_']);
                }
            }
            assert(out@ =~= prev + seq![glyph(image@[j as int])]);
            j = j + 1;
            assert(row_text(image@.subrange(start as int, j as int)) =~= row_text(
                image@.subrange(start as int, j - 1),
            ).push(glyph(image@[j - 1])));
            assert(out@ =~= before + row_text(image@.subrange(start as int, j as int)));
        }
        out.append("\n");
        proof {
            reveal_strlit("\n");
            assert("\n"@ =~= seq!['\n']);
        }
        let ghost row = row_text(image@.subrange(start as int, end as int));
        assert(out@ =~= before + row + seq!['\n']);
        proof {
            if rest.len() <= ROW_WIDTH {
                assert(image@.subrange(start as int, end as int) =~= rest);
                assert(image@.subrange(end as int, n as int) =~= Seq::<u8>::empty());
            } else {
                assert(image@.subrange(start as int, end as int) =~= rest.take(ROW_WIDTH as int));
                assert(image@.subrange(end as int, n as int) =~= rest.skip(ROW_WIDTH as int));
            }
            assert(rendered(rest) =~= row + seq!['\n'] + rendered(
                image@.subrange(end as int, n as int),
            ));
            assert(out@ + rendered(image@.subrange(end as int, n as int)) =~= before + rendered(
                rest,
            ));
        }
        start = end;
    }
    assert(image@.subrange(n as int, n as int) =~= Seq::<u8>::empty());
    assert(out@ + Seq::<char>::empty() =~= out@);
    out
}

} // verus!
