use vstd::prelude::*;

verus! {

/// Length of the header of a label file: magic number and item count.
pub const LABEL_HEADER_LEN: usize = 8;

/// Length of the header of an image file: magic number, image count, rows, columns.
pub const IMAGE_HEADER_LEN: usize = 16;

/// The big-endian 32-bit unsigned integer stored at `off` in `s`.
pub open spec fn be_u32(s: Seq<u8>, off: int) -> nat {
    (s[off] as nat) * 16777216 + (s[off + 1] as nat) * 65536 + (s[off + 2] as nat) * 256 + (
    s[off + 3] as nat)
}

/// Number of images announced by an image file's header.
pub open spec fn image_count(s: Seq<u8>) -> nat {
    be_u32(s, 4)
}

/// Number of pixel rows of each image, from an image file's header.
pub open spec fn image_rows(s: Seq<u8>) -> nat {
    be_u32(s, 8)
}

/// Number of pixel columns of each image, from an image file's header.
pub open spec fn image_cols(s: Seq<u8>) -> nat {
    be_u32(s, 12)
}

/// Number of pixels in each image of an image file.
pub open spec fn image_size(s: Seq<u8>) -> nat {
    image_rows(s) * image_cols(s)
}

/// A label file is long enough to hold its header.
pub open spec fn labels_fit(s: Seq<u8>) -> bool {
    s.len() >= LABEL_HEADER_LEN
}

/// An image file holds its header and every pixel its header announces.
pub open spec fn images_fit(s: Seq<u8>) -> bool {
    s.len() >= IMAGE_HEADER_LEN && IMAGE_HEADER_LEN + image_count(s) * image_size(s) <= s.len()
}

/// The labels of a label file: every byte after the header.
pub open spec fn labels_of(s: Seq<u8>) -> Seq<u8> {
    s.subrange(LABEL_HEADER_LEN as int, s.len() as int)
}

/// The raw pixels of image `i` of an image file.
pub open spec fn image_at(s: Seq<u8>, i: int) -> Seq<u8> {
    let start = IMAGE_HEADER_LEN + i * image_size(s);
    s.subrange(start, start + image_size(s))
}

/// All the images of an image file, in file order.
pub open spec fn images_of(s: Seq<u8>) -> Seq<Seq<u8>> {
    Seq::new(image_count(s), |i: int| image_at(s, i))
}

/// The pixels of a collection of decoded images.
pub open spec fn pixels(images: Seq<Vec<u8>>) -> Seq<Seq<u8>> {
    images.map_values(|image: Vec<u8>| image@)
}

fn read_be_u32(data: &[u8], off: usize) -> (r: u64)
    requires
        off + 4 <= data@.len(),
    ensures
        r as nat == be_u32(data@, off as int),
        r < 0x1_0000_0000,
{
    (data[off] as u64) * 16777216 + (data[off + 1] as u64) * 65536 + (data[off + 2] as u64) * 256
        + (data[off + 3] as u64)
}

/// Decodes a decompressed label file: the labels are the bytes that follow
/// the eight-byte header, one per image. A file shorter than its header is
/// reported as truncated.
pub fn read_mnist_labels(data: &[u8]) -> (r: Result<Vec<u8>, crate::LoadError>)
    ensures
        r is Ok <==> labels_fit(data@),
        r is Ok ==> r->Ok_0@ == labels_of(data@),
        r is Err ==> r->Err_0 == crate::LoadError::Truncated,
{
    if data.len() < LABEL_HEADER_LEN {
        return Err(crate::LoadError::Truncated);
    }
    let mut labels: Vec<u8> = Vec::with_capacity(data.len() - LABEL_HEADER_LEN);
    let mut i: usize = LABEL_HEADER_LEN;
    while i < data.len()
        invariant
            LABEL_HEADER_LEN <= i <= data@.len(),
            labels@ == data@.subrange(LABEL_HEADER_LEN as int, i as int),
        decreases data@.len() - i,
    {
        labels.push(data[i]);
        i = i + 1;
        assert(labels@ =~= data@.subrange(LABEL_HEADER_LEN as int, i as int));
    }
    Ok(labels)
}


fn copy_image(data: &[u8], start: usize, size: usize) -> (r: Vec<u8>)
    requires
        start + size <= data@.len(),
    ensures
        r@ == data@.subrange(start as int, start + size),
{
    let mut image: Vec<u8> = Vec::with_capacity(size);
    let n: usize = data.len();
    let mut j: usize = 0;
    while j < size
        invariant
            j <= size,
            n == data@.len(),
            start + size <= data@.len(),
            image@ == data@.subrange(start as int, start + j),
        decreases size - j,
    {
        image.push(data[start + j]);
        j = j + 1;
        assert(image@ =~= data@.subrange(start as int, start + j));
    }
    image
}

/// Decodes a decompressed image file. The sixteen-byte header holds, as
/// big-endian 32-bit integers, a magic number, the image count, the row count
/// and the column count; then come the pixels of every image, one raw byte
/// each, row by row. Each image is returned as its `rows * cols` raw bytes.
/// A file too short for the pixels its header announces is reported as
/// truncated; bytes after the last image are ignored.
pub fn read_mnist_images(data: &[u8]) -> (r: Result<Vec<Vec<u8>>, crate::LoadError>)
    ensures
        r is Ok <==> images_fit(data@),
        r is Ok ==> pixels(r->Ok_0@) == images_of(data@),
        r is Err ==> r->Err_0 == crate::LoadError::Truncated,
{
    if data.len() < IMAGE_HEADER_LEN {
        return Err(crate::LoadError::Truncated);
    }
    let count = read_be_u32(data, 4);
    let rows = read_be_u32(data, 8);
    let cols = read_be_u32(data, 12);
    assert(rows * cols < 0x1_0000_0000_0000_0000) by (nonlinear_arith)
        requires
            rows < 0x1_0000_0000,
            cols < 0x1_0000_0000,
    ;
    let size_wide: u64 = rows * cols;
    assert(count * size_wide < 0x1_0000_0000_0000_0000_0000_0000) by (nonlinear_arith)
        requires
            count < 0x1_0000_0000,
            size_wide < 0x1_0000_0000_0000_0000,
    ;
    let needed: u128 = IMAGE_HEADER_LEN as u128 + (count as u128) * (size_wide as u128);
    if needed > data.len() as u128 {
        return Err(crate::LoadError::Truncated);
    }
    let mut images: Vec<Vec<u8>> = Vec::new();
    if count == 0 {
        assert(pixels(images@) =~= images_of(data@));
        return Ok(images);
    }
    assert(size_wide <= count * size_wide) by (nonlinear_arith)
        requires
            count >= 1,
    ;
    let size: usize = size_wide as usize;
    let n: usize = data.len();
    let mut i: usize = 0;
    while (i as u64) < count
        invariant
            i <= count,
            count == image_count(data@),
            size == image_size(data@),
            IMAGE_HEADER_LEN + count * size <= data@.len(),
            n == data@.len(),
            images@.len() == i,
            forall|k: int| 0 <= k < i ==> #[trigger] images@[k]@ == image_at(data@, k),
        decreases count - i,
    {
        assert(IMAGE_HEADER_LEN + i * size + size <= IMAGE_HEADER_LEN + count * size)
            by (nonlinear_arith)
            requires
                i < count,
        ;
        let start: usize = IMAGE_HEADER_LEN + i * size;
        let image = copy_image(data, start, size);
        images.push(image);
        i = i + 1;
    }
    assert(pixels(images@) =~= images_of(data@));
    Ok(images)
}

/// A label file with one label per image of an image file, beside an image
/// file that holds every pixel its header announces, decodes into as many
/// labels as images, both as many as the image file's header counts.
pub proof fn lemma_pair_lengths(label_file: Seq<u8>, image_file: Seq<u8>)
    requires
        label_file.len() == LABEL_HEADER_LEN + image_count(image_file),
        images_fit(image_file),
    ensures
        labels_fit(label_file),
        labels_of(label_file).len() == image_count(image_file),
        images_of(image_file).len() == image_count(image_file),
{
}

/// Every image decoded from an image file has `rows * cols` pixels, as the
/// file's header gives them, and each pixel is the raw byte at its place.
pub proof fn lemma_image_lengths(image_file: Seq<u8>)
    requires
        images_fit(image_file),
    ensures
        forall|i: int|
            0 <= i < image_count(image_file) ==> #[trigger] images_of(image_file)[i].len()
                == image_rows(image_file) * image_cols(image_file),
        forall|i: int, j: int|
            0 <= i < image_count(image_file) && 0 <= j < image_size(image_file)
                ==> #[trigger] images_of(image_file)[i][j] == image_file[IMAGE_HEADER_LEN + i
                * image_size(image_file) + j],
{
    let count = image_count(image_file);
    let size = image_size(image_file);
    assert forall|i: int| 0 <= i < count implies IMAGE_HEADER_LEN + #[trigger] (i * size) + size
        <= image_file.len() && 0 <= i * size by {
        assert(i * size + size <= count * size) by (nonlinear_arith)
            requires
                i < count,
        ;
        assert(0 <= i * size) by (nonlinear_arith)
            requires
                0 <= i,
        ;
    }
}

/// An image file exactly as long as its header and the pixels it announces
/// decodes; with its last byte removed it is reported as truncated.
pub proof fn lemma_exact_length(image_file: Seq<u8>)
    requires
        image_file.len() >= IMAGE_HEADER_LEN,
        image_file.len() == IMAGE_HEADER_LEN + image_count(image_file) * image_size(image_file),
    ensures
        images_fit(image_file),
        !images_fit(image_file.drop_last()),
{
    let short = image_file.drop_last();
    if short.len() >= IMAGE_HEADER_LEN {
        assert(image_count(short) == image_count(image_file));
        assert(image_rows(short) == image_rows(image_file));
        assert(image_cols(short) == image_cols(image_file));
    }
}

/// Decoding depends on the decompressed bytes alone: equal inputs give equal
/// labels, equal images and the same outcome.
pub proof fn lemma_decoding_is_pure(a: Seq<u8>, b: Seq<u8>)
    requires
        a =~= b,
    ensures
        labels_fit(a) == labels_fit(b),
        labels_of(a) == labels_of(b),
        images_fit(a) == images_fit(b),
        images_of(a) == images_of(b),
{
}

} // verus!
