//! Quantization of a per-piece completion bitmap into a short run of
//! coloured progress-bar segments.
//!
//! Bit `p` of the bitmap (most significant bit first within each byte) tells
//! whether piece `p` is complete. Each byte is classified by how many of the
//! pieces it stands for are complete, the classes are split into at most a
//! hundred equal groups, each group gets a colour, and neighbouring groups of
//! the same colour are merged into one segment whose width counts them.

use vstd::prelude::*;

verus! {

/// How complete the pieces of one bitmap byte are.
#[derive(Clone, Copy, Debug, PartialEq, Eq, Structural)]
pub enum PieceClass {
    Empty,
    Started,
    Half,
    Full,
}

/// The weight that a byte's class adds to its group.
pub open spec fn class_weight(c: PieceClass) -> nat {
    match c {
        PieceClass::Empty => 0,
        PieceClass::Started => 1,
        PieceClass::Half => 2,
        PieceClass::Full => 3,
    }
}

impl PieceClass {
    /// The numeric weight of the class.
    pub fn weight(&self) -> (r: u8)
        ensures
            r as nat == class_weight(*self),
    {
        match self {
            PieceClass::Empty => 0,
            PieceClass::Started => 1,
            PieceClass::Half => 2,
            PieceClass::Full => 3,
        }
    }
}

/// Number of pieces described by a piece count; a negative count has none.
pub open spec fn piece_total(piece_count: i64) -> nat {
    if piece_count <= 0 {
        0
    } else {
        piece_count as nat
    }
}

/// Number of bitmap bytes needed for the pieces: `ceil(pieces / 8)`.
pub open spec fn bytes_needed(piece_count: i64) -> nat {
    let p = piece_total(piece_count);
    p / 8 + if p % 8 == 0 {
        0nat
    } else {
        1nat
    }
}

/// Number of bytes of a bitmap of length `len` that are read: never more than
/// the pieces need.
pub open spec fn interpreted_len(len: nat, piece_count: i64) -> nat {
    if len < bytes_needed(piece_count) {
        len
    } else {
        bytes_needed(piece_count)
    }
}

/// Number of real pieces that byte `i` stands for: eight, but fewer in the
/// byte that holds the last piece.
pub open spec fn pieces_in_byte(piece_count: i64, i: int) -> nat {
    let rest = piece_total(piece_count) - 8 * i;
    if rest >= 8 {
        8
    } else if rest <= 0 {
        0
    } else {
        rest as nat
    }
}

/// Bit `j` of a byte, counting from the most significant bit.
pub open spec fn piece_bit(b: u8, j: nat) -> bool {
    (b >> ((7 - j) as u8)) & 1u8 == 1u8
}

/// Whether piece `p` is marked complete in the bitmap.
pub open spec fn piece_done(bitmap: Seq<u8>, p: nat) -> bool {
    p / 8 < bitmap.len() && piece_bit(bitmap[(p / 8) as int], p % 8)
}

/// Number of set bits among the first `r` bits of a byte.
pub open spec fn ones_among_first(b: u8, r: nat) -> nat
    decreases r,
{
    if r == 0 {
        0
    } else {
        ones_among_first(b, (r - 1) as nat) + if piece_bit(b, (r - 1) as nat) {
            1nat
        } else {
            0nat
        }
    }
}

/// Class of a byte that stands for `r` pieces of which `ones` are complete.
/// With one piece there is no partial state; with two, one complete piece is
/// half.
pub open spec fn classify(ones: nat, r: nat) -> PieceClass {
    if r == 1 {
        if ones > 0 {
            PieceClass::Full
        } else {
            PieceClass::Empty
        }
    } else if r == 2 {
        if ones == 2 {
            PieceClass::Full
        } else if ones == 1 {
            PieceClass::Half
        } else {
            PieceClass::Empty
        }
    } else if ones == r {
        PieceClass::Full
    } else if ones > r / 2 {
        PieceClass::Half
    } else if ones > 0 {
        PieceClass::Started
    } else {
        PieceClass::Empty
    }
}

/// Class of byte `i` of the bitmap: only the bits of real pieces are read.
pub open spec fn byte_class(bitmap: Seq<u8>, piece_count: i64, i: int) -> PieceClass {
    let r = pieces_in_byte(piece_count, i);
    classify(ones_among_first(bitmap[i], r), r)
}

/// Classes of the bytes that are read.
pub open spec fn piece_classes(bitmap: Seq<u8>, piece_count: i64) -> Seq<PieceClass> {
    Seq::new(interpreted_len(bitmap.len(), piece_count), |i: int| byte_class(bitmap, piece_count, i))
}

/// Counts the complete pieces among the first `r` bits of a byte.
fn count_piece_bits(b: u8, r: u8) -> (n: u8)
    requires
        r <= 8,
    ensures
        n as nat == ones_among_first(b, r as nat),
        n <= r,
{
    let mut n: u8 = 0;
    let mut j: u8 = 0;
    while j < r
        invariant
            j <= r <= 8,
            n as nat == ones_among_first(b, j as nat),
            n <= j,
        decreases r - j,
    {
        if (b >> (7 - j)) & 1u8 == 1u8 {
            n = n + 1;
        }
        j = j + 1;
    }
    n
}

/// Classifies a byte that stands for `r` pieces, `ones` of them complete.
pub fn classify_byte(ones: u8, r: u8) -> (c: PieceClass)
    ensures
        c == classify(ones as nat, r as nat),
{
    if r == 1 {
        if ones > 0 {
            PieceClass::Full
        } else {
            PieceClass::Empty
        }
    } else if r == 2 {
        if ones == 2 {
            PieceClass::Full
        } else if ones == 1 {
            PieceClass::Half
        } else {
            PieceClass::Empty
        }
    } else if ones == r {
        PieceClass::Full
    } else if ones > r / 2 {
        PieceClass::Half
    } else if ones > 0 {
        PieceClass::Started
    } else {
        PieceClass::Empty
    }
}

/// Classifies each byte of the bitmap that stands for real pieces.
pub fn classify_pieces(bitmap: &Vec<u8>, piece_count: i64) -> (r: Vec<PieceClass>)
    ensures
        r@ == piece_classes(bitmap@, piece_count),
{
    let pieces: u64 = if piece_count <= 0 {
        0
    } else {
        piece_count as u64
    };
    let needed: u64 = pieces / 8 + if pieces % 8 == 0 {
        0
    } else {
        1
    };
    let k: usize = if (bitmap.len() as u64) < needed {
        bitmap.len()
    } else {
        needed as usize
    };
    assert(k as nat == interpreted_len(bitmap@.len(), piece_count));
    let mut out: Vec<PieceClass> = Vec::new();
    let mut i: usize = 0;
    while i < k
        invariant
            k as nat == interpreted_len(bitmap@.len(), piece_count),
            pieces as nat == piece_total(piece_count),
            needed as nat == bytes_needed(piece_count),
            i <= k,
            out@.len() == i,
            forall|t: int| 0 <= t < i ==> out@[t] == byte_class(bitmap@, piece_count, t),
        decreases k - i,
    {
        assert(8 * (i as int) < pieces);
        let rest: u64 = pieces - 8 * (i as u64);
        let r: u8 = if rest >= 8 {
            8
        } else {
            rest as u8
        };
        assert(r as nat == pieces_in_byte(piece_count, i as int));
        let ones = count_piece_bits(bitmap[i], r);
        out.push(classify_byte(ones, r));
        i = i + 1;
    }
    assert(out@ =~= piece_classes(bitmap@, piece_count));
    out
}

/// Colour of one group of bytes, or of a merged run of groups.
#[derive(Clone, Copy, Debug, PartialEq, Eq, Structural)]
pub enum SegmentColor {
    Complete,
    Incomplete,
    Started,
    Empty,
}

/// A run of same-coloured groups; `width` counts the groups merged into it.
#[derive(Clone, Copy, Debug, PartialEq, Eq, Structural)]
pub struct ColorSegment {
    pub color: SegmentColor,
    pub width: usize,
}

/// Sum of the class weights of a run of bytes.
pub open spec fn weight_sum(s: Seq<PieceClass>) -> nat
    decreases s.len(),
{
    if s.len() == 0 {
        0
    } else {
        weight_sum(s.drop_last()) + class_weight(s.last())
    }
}

/// Colour of a group of `n` bytes. The thresholds are taken against `4 * n`,
/// although a byte weighs at most 3.
pub open spec fn group_color(g: Seq<PieceClass>) -> SegmentColor {
    let total = 4 * g.len();
    let s = weight_sum(g);
    if s >= total {
        SegmentColor::Complete
    } else if s > total / 2 {
        SegmentColor::Incomplete
    } else if s > 0 {
        SegmentColor::Started
    } else {
        SegmentColor::Empty
    }
}

/// Bytes per group for `k` bytes: `ceil(k / 100)`, so that there are at most a
/// hundred groups.
pub open spec fn group_size(k: nat) -> nat {
    if k == 0 {
        1
    } else {
        ((k - 1) / 100 + 1) as nat
    }
}

/// Number of groups of `k` bytes; the last one may be shorter.
pub open spec fn group_count(k: nat) -> nat {
    (k + group_size(k) - 1) as nat / group_size(k)
}

/// End of group `j` among `k` bytes.
pub open spec fn group_end(k: nat, j: int) -> int {
    let e = (j + 1) * group_size(k);
    if e < k {
        e
    } else {
        k as int
    }
}

/// The colours of the groups, in order.
pub open spec fn group_colors(cs: Seq<PieceClass>) -> Seq<SegmentColor> {
    let k = cs.len();
    Seq::new(
        group_count(k),
        |j: int| group_color(cs.subrange(j * group_size(k), group_end(k, j))),
    )
}

/// Adds one group's colour to a sequence of runs.
pub open spec fn merge_step(runs: Seq<(SegmentColor, nat)>, c: SegmentColor) -> Seq<(SegmentColor, nat)> {
    if runs.len() > 0 && runs.last().0 == c {
        runs.update(runs.len() - 1, (c, runs.last().1 + 1))
    } else {
        runs.push((c, 1nat))
    }
}

/// Run-length encoding of a sequence of colours.
pub open spec fn merge_runs(colors: Seq<SegmentColor>) -> Seq<(SegmentColor, nat)>
    decreases colors.len(),
{
    if colors.len() == 0 {
        Seq::empty()
    } else {
        merge_step(merge_runs(colors.drop_last()), colors.last())
    }
}

/// The segments of a bitmap with the given piece count.
pub open spec fn quantize_model(bitmap: Seq<u8>, piece_count: i64) -> Seq<(SegmentColor, nat)> {
    merge_runs(group_colors(piece_classes(bitmap, piece_count)))
}

/// A sequence of segments as (colour, width) pairs.
pub open spec fn segments_view(v: Seq<ColorSegment>) -> Seq<(SegmentColor, nat)> {
    v.map_values(|s: ColorSegment| (s.color, s.width as nat))
}

/// Colours the bytes `start..end` of the classes.
fn group_color_of(classes: &Vec<PieceClass>, start: usize, end: usize) -> (c: SegmentColor)
    requires
        start < end <= classes@.len(),
        end - start <= usize::MAX / 4,
    ensures
        c == group_color(classes@.subrange(start as int, end as int)),
{
    let mut sum: usize = 0;
    let mut i: usize = start;
    while i < end
        invariant
            start <= i <= end <= classes@.len(),
            end - start <= usize::MAX / 4,
            sum as nat == weight_sum(classes@.subrange(start as int, i as int)),
            sum <= 3 * (i - start),
        decreases end - i,
    {
        assert(classes@.subrange(start as int, i + 1).drop_last() =~= classes@.subrange(
            start as int,
            i as int,
        ));
        sum = sum + classes[i].weight() as usize;
        i = i + 1;
    }
    let total: usize = (end - start) * 4;
    if sum >= total {
        SegmentColor::Complete
    } else if sum > total / 2 {
        SegmentColor::Incomplete
    } else if sum > 0 {
        SegmentColor::Started
    } else {
        SegmentColor::Empty
    }
}

/// Appends a group's colour to the runs, widening the last run when it has the
/// same colour.
fn extend_runs(runs: &mut Vec<ColorSegment>, color: SegmentColor)
    requires
        forall|t: int| 0 <= t < old(runs)@.len() ==> old(runs)@[t].width < usize::MAX,
    ensures
        segments_view(final(runs)@) == merge_step(segments_view(old(runs)@), color),
        final(runs)@.len() >= old(runs)@.len(),
        forall|t: int|
            0 <= t < final(runs)@.len() ==> final(runs)@[t].width <= (if t < old(runs)@.len() {
                old(runs)@[t].width + 1
            } else {
                1
            }),
{
    let n = runs.len();
    if n > 0 && runs[n - 1].color == color {
        let last = runs[n - 1];
        runs.set(n - 1, ColorSegment { color, width: last.width + 1 });
        assert(segments_view(runs@) =~= merge_step(segments_view(old(runs)@), color));
    } else {
        runs.push(ColorSegment { color, width: 1 });
        assert(segments_view(runs@) =~= merge_step(segments_view(old(runs)@), color));
    }
}

/// Splits the classes into groups, colours each group and merges neighbouring
/// groups of the same colour.
pub fn color_runs(classes: &Vec<PieceClass>) -> (r: Vec<ColorSegment>)
    ensures
        segments_view(r@) == merge_runs(group_colors(classes@)),
{
    let k = classes.len();
    let ghost cs = classes@;
    let mut out: Vec<ColorSegment> = Vec::new();
    if k == 0 {
        assert(group_colors(cs) =~= Seq::<SegmentColor>::empty());
        assert(segments_view(out@) =~= Seq::<(SegmentColor, nat)>::empty());
        return out;
    }
    let size: usize = (k - 1) / 100 + 1;
    assert(size as nat == group_size(k as nat));
    let mut start: usize = 0;
    let ghost mut j: int = 0;
    assert(segments_view(out@) =~= merge_runs(group_colors(cs).take(0)));
    while start < k
        invariant
            cs == classes@,
            k == cs.len(),
            k > 0,
            size as nat == group_size(k as nat),
            1 <= size <= k,
            0 <= j,
            start == (if j * size < k {
                j * size
            } else {
                k as int
            }),
            j > 0 ==> (j - 1) * size < k,
            j <= group_count(k as nat),
            segments_view(out@) == merge_runs(group_colors(cs).take(j)),
            forall|t: int| 0 <= t < out@.len() ==> out@[t].width <= j,
        decreases k - start,
    {
        proof {
            lemma_group_index_in_range(k as int, size as int, j);
            assert(j < k) by (nonlinear_arith)
                requires
                    j * size < k,
                    size >= 1,
                    j >= 0,
            ;
        }
        let end: usize = if k - start > size {
            start + size
        } else {
            k
        };
        assert(end == group_end(k as nat, j)) by (nonlinear_arith)
            requires
                start == j * size,
                end == (if k - start > size { start + size } else { k as int }),
                group_end(k as nat, j) == (if (j + 1) * size < k { (j + 1) * size } else { k as int }),
        ;
        let color = group_color_of(classes, start, end);
        assert(group_colors(cs)[j] == color);
        extend_runs(&mut out, color);
        assert(group_colors(cs).take(j + 1).drop_last() =~= group_colors(cs).take(j));
        start = end;
        proof {
            j = j + 1;
        }
        assert(start == (if j * size < k {
            j * size
        } else {
            k as int
        })) by (nonlinear_arith)
            requires
                start == (if k - (j - 1) * size > size { (j - 1) * size + size } else { k as int }),
        ;
    }
    proof {
        assert(j * size >= k);
        lemma_group_count_reached(k as int, size as int, j);
        assert(group_colors(cs).take(j) =~= group_colors(cs));
    }
    out
}

/// Below `k`, group `j` starts in range and is one of the groups.
proof fn lemma_group_index_in_range(k: int, size: int, j: int)
    requires
        size >= 1,
        j >= 0,
        j * size < k,
        group_size(k as nat) == size,
    ensures
        j < group_count(k as nat),
{
    let x = k + size - 1;
    assert((j + 1) * size <= x) by (nonlinear_arith)
        requires
            j * size < k,
            x == k + size - 1,
    ;
    vstd::arithmetic::div_mod::lemma_div_is_ordered((j + 1) * size, x, size);
    vstd::arithmetic::div_mod::lemma_div_multiples_vanish(j + 1, size);
}

/// When the groups have covered all `k` bytes, `j` is the number of groups.
proof fn lemma_group_count_reached(k: int, size: int, j: int)
    requires
        size >= 1,
        k >= 1,
        j >= 1,
        j * size >= k,
        (j - 1) * size < k,
        group_size(k as nat) == size,
    ensures
        j == group_count(k as nat),
{
    let x = k + size - 1;
    let rem = x - j * size;
    assert(0 <= rem < size) by (nonlinear_arith)
        requires
            rem == x - j * size,
            x == k + size - 1,
            j * size >= k,
            (j - 1) * size < k,
    ;
    vstd::arithmetic::div_mod::lemma_fundamental_div_mod_converse(x, size, j, rem);
}

/// Quantizes a decoded piece bitmap into coloured segments.
pub fn quantize(bitmap: &Vec<u8>, piece_count: i64) -> (r: Vec<ColorSegment>)
    ensures
        segments_view(r@) == quantize_model(bitmap@, piece_count),
{
    let classes = classify_pieces(bitmap, piece_count);
    color_runs(&classes)
}

/// Bytes that agree on their first `r` bits have as many set bits among them.
proof fn lemma_ones_depend_on_first_bits(x: u8, y: u8, r: nat)
    requires
        forall|j: nat| j < r ==> piece_bit(x, j) == piece_bit(y, j),
    ensures
        ones_among_first(x, r) == ones_among_first(y, r),
    decreases r,
{
    if r > 0 {
        lemma_ones_depend_on_first_bits(x, y, (r - 1) as nat);
    }
}

/// The bitmap is read no further than the pieces need, and only the bits of
/// real pieces are read: two bitmaps that agree on every piece below the
/// piece count, and of which as many bytes are read, give the same classes
/// and the same segments.
pub proof fn lemma_only_real_pieces_read(a: Seq<u8>, b: Seq<u8>, piece_count: i64)
    requires
        interpreted_len(a.len(), piece_count) == interpreted_len(b.len(), piece_count),
        forall|p: nat| p < piece_total(piece_count) ==> piece_done(a, p) == piece_done(b, p),
    ensures
        piece_classes(a, piece_count).len() <= bytes_needed(piece_count),
        piece_classes(a, piece_count).len() <= a.len(),
        piece_classes(a, piece_count) == piece_classes(b, piece_count),
        quantize_model(a, piece_count) == quantize_model(b, piece_count),
{
    let k = interpreted_len(a.len(), piece_count);
    assert forall|i: int| 0 <= i < k implies byte_class(a, piece_count, i) == byte_class(
        b,
        piece_count,
        i,
    ) by {
        let r = pieces_in_byte(piece_count, i);
        assert(8 * i < piece_total(piece_count));
        assert forall|j: nat| j < r implies piece_bit(a[i], j) == piece_bit(b[i], j) by {
            let p = (8 * i + j) as nat;
            assert(p < piece_total(piece_count));
            assert(p / 8 == i && p % 8 == j);
            assert(piece_done(a, p) == piece_done(b, p));
        }
        lemma_ones_depend_on_first_bits(a[i], b[i], r);
    }
    assert(piece_classes(a, piece_count) =~= piece_classes(b, piece_count));
}

/// A weight sum of bytes that all share one class.
proof fn lemma_weight_sum_uniform(s: Seq<PieceClass>, c: PieceClass)
    requires
        forall|i: int| 0 <= i < s.len() ==> s[i] == c,
    ensures
        weight_sum(s) == class_weight(c) * s.len(),
    decreases s.len(),
{
    if s.len() > 0 {
        lemma_weight_sum_uniform(s.drop_last(), c);
        assert(class_weight(c) * s.len() == class_weight(c) * (s.len() - 1) + class_weight(c))
            by (nonlinear_arith);
    }
}

/// Every group has at least one byte.
proof fn lemma_group_nonempty(k: nat, j: int)
    requires
        0 <= j < group_count(k),
    ensures
        j * group_size(k) < group_end(k, j),
        group_end(k, j) <= k,
{
    let size = group_size(k) as int;
    let x = (k + size - 1) as int;
    vstd::arithmetic::div_mod::lemma_fundamental_div_mod(x, size);
    let q = x / size;
    assert(q == group_count(k));
    assert((j + 1) * size <= q * size) by (nonlinear_arith)
        requires
            j + 1 <= q,
            size >= 1,
    ;
    assert(j * size < k) by (nonlinear_arith)
        requires
            (j + 1) * size <= q * size,
            x == size * q + x % size,
            x % size >= 0,
            x == k + size - 1,
    ;
    assert(j * size < (j + 1) * size) by (nonlinear_arith)
        requires
            size >= 1,
    ;
}

/// Bytes that all share one class give groups that all share one colour.
proof fn lemma_groups_uniform(cs: Seq<PieceClass>, c: PieceClass, color: SegmentColor)
    requires
        forall|i: int| 0 <= i < cs.len() ==> cs[i] == c,
        forall|g: Seq<PieceClass>|
            g.len() >= 1 && (forall|i: int| 0 <= i < g.len() ==> g[i] == c) ==> #[trigger] group_color(g)
                == color,
    ensures
        forall|j: int| 0 <= j < group_colors(cs).len() ==> group_colors(cs)[j] == color,
{
    let k = cs.len();
    assert forall|j: int| 0 <= j < group_colors(cs).len() implies group_colors(cs)[j] == color by {
        lemma_group_nonempty(k, j);
        let g = cs.subrange(j * group_size(k), group_end(k, j));
        assert(g.len() >= 1);
    }
}

/// Merging a sequence of one colour gives a single run as wide as the sequence.
proof fn lemma_merge_runs_uniform(colors: Seq<SegmentColor>, c: SegmentColor)
    requires
        colors.len() > 0,
        forall|i: int| 0 <= i < colors.len() ==> colors[i] == c,
    ensures
        merge_runs(colors) == seq![(c, colors.len())],
    decreases colors.len(),
{
    if colors.len() > 1 {
        lemma_merge_runs_uniform(colors.drop_last(), c);
        assert(merge_runs(colors) =~= seq![(c, colors.len())]);
    } else {
        assert(merge_runs(colors.drop_last()) =~= Seq::<(SegmentColor, nat)>::empty());
        assert(merge_runs(colors) =~= seq![(c, colors.len())]);
    }
}

/// With at least one byte read there is at least one group.
proof fn lemma_some_group(k: nat)
    requires
        k > 0,
    ensures
        group_count(k) >= 1,
{
    let size = group_size(k) as int;
    vstd::arithmetic::div_mod::lemma_div_is_ordered(size, (k + size - 1) as int, size);
    vstd::arithmetic::div_mod::lemma_div_by_self(size);
}

/// A bitmap with no bit set gives no segment when no byte is read, and
/// otherwise one empty segment spanning every group.
pub proof fn lemma_all_zero_bitmap(bitmap: Seq<u8>, piece_count: i64)
    requires
        forall|i: int| 0 <= i < bitmap.len() ==> bitmap[i] == 0u8,
    ensures
        interpreted_len(bitmap.len(), piece_count) == 0 ==> quantize_model(bitmap, piece_count)
            == Seq::<(SegmentColor, nat)>::empty(),
        interpreted_len(bitmap.len(), piece_count) > 0 ==> quantize_model(bitmap, piece_count)
            == seq![
            (SegmentColor::Empty, group_count(interpreted_len(bitmap.len(), piece_count))),
        ],
{
    let cs = piece_classes(bitmap, piece_count);
    assert forall|j: nat| j < 8 implies !piece_bit(0u8, j) by {
        let sh = (7 - j) as u8;
        assert((0u8 >> sh) & 1u8 == 0u8) by (bit_vector);
    }
    assert forall|i: int| 0 <= i < cs.len() implies cs[i] == PieceClass::Empty by {
        let r = pieces_in_byte(piece_count, i);
        lemma_ones_depend_on_first_bits(bitmap[i], 0u8, r);
        lemma_ones_zero(r);
    }
    assert forall|g: Seq<PieceClass>|
        g.len() >= 1 && (forall|i: int| 0 <= i < g.len() ==> g[i] == PieceClass::Empty) implies #[trigger] group_color(
        g,
    ) == SegmentColor::Empty by {
        lemma_weight_sum_uniform(g, PieceClass::Empty);
    }
    lemma_groups_uniform(cs, PieceClass::Empty, SegmentColor::Empty);
    if cs.len() > 0 {
        lemma_some_group(cs.len());
        lemma_merge_runs_uniform(group_colors(cs), SegmentColor::Empty);
    } else {
        assert(group_colors(cs) =~= Seq::<SegmentColor>::empty());
    }
}

/// A byte of zero has no set bit among its first `r` bits.
proof fn lemma_ones_zero(r: nat)
    requires
        forall|j: nat| j < 8 ==> !piece_bit(0u8, j),
        r <= 8,
    ensures
        ones_among_first(0u8, r) == 0,
    decreases r,
{
    if r > 0 {
        lemma_ones_zero((r - 1) as nat);
    }
}

/// A byte of all ones has all of its first `r` bits set.
proof fn lemma_ones_full(r: nat)
    requires
        forall|j: nat| j < 8 ==> piece_bit(0xffu8, j),
        r <= 8,
    ensures
        ones_among_first(0xffu8, r) == r,
    decreases r,
{
    if r > 0 {
        lemma_ones_full((r - 1) as nat);
    }
}

/// A bitmap of all ones, with a positive piece count that is a multiple of
/// eight, classifies every byte it reads as full and gives a single segment
/// spanning every group. Its colour is the incomplete one: a group's weight is
/// at most three per byte, under the four per byte that the complete colour
/// asks for.
pub proof fn lemma_all_one_bitmap(bitmap: Seq<u8>, piece_count: i64)
    requires
        forall|i: int| 0 <= i < bitmap.len() ==> bitmap[i] == 0xffu8,
        bitmap.len() > 0,
        piece_count > 0,
        piece_count % 8 == 0,
    ensures
        forall|i: int|
            0 <= i < piece_classes(bitmap, piece_count).len() ==> piece_classes(
                bitmap,
                piece_count,
            )[i] == PieceClass::Full,
        quantize_model(bitmap, piece_count) == seq![
            (SegmentColor::Incomplete, group_count(interpreted_len(bitmap.len(), piece_count))),
        ],
{
    let cs = piece_classes(bitmap, piece_count);
    assert forall|j: nat| j < 8 implies piece_bit(0xffu8, j) by {
        let sh = (7 - j) as u8;
        assert(sh < 8u8 ==> (0xffu8 >> sh) & 1u8 == 1u8) by (bit_vector);
    }
    assert forall|i: int| 0 <= i < cs.len() implies cs[i] == PieceClass::Full by {
        let r = pieces_in_byte(piece_count, i);
        assert(8 * i < piece_total(piece_count));
        lemma_ones_full(r);
    }
    assert forall|g: Seq<PieceClass>|
        g.len() >= 1 && (forall|i: int| 0 <= i < g.len() ==> g[i] == PieceClass::Full) implies #[trigger] group_color(
        g,
    ) == SegmentColor::Incomplete by {
        lemma_weight_sum_uniform(g, PieceClass::Full);
    }
    lemma_groups_uniform(cs, PieceClass::Full, SegmentColor::Incomplete);
    assert(cs.len() > 0);
    lemma_some_group(cs.len());
    lemma_merge_runs_uniform(group_colors(cs), SegmentColor::Incomplete);
}

/// With a single piece, the one byte read is full when the piece's bit is set
/// and empty otherwise; the single segment is then incomplete or empty.
pub proof fn lemma_single_piece(bitmap: Seq<u8>)
    requires
        bitmap.len() > 0,
    ensures
        piece_bit(bitmap[0], 0) ==> piece_classes(bitmap, 1) == seq![PieceClass::Full],
        piece_bit(bitmap[0], 0) ==> quantize_model(bitmap, 1) == seq![
            (SegmentColor::Incomplete, 1nat),
        ],
        !piece_bit(bitmap[0], 0) ==> piece_classes(bitmap, 1) == seq![PieceClass::Empty],
        !piece_bit(bitmap[0], 0) ==> quantize_model(bitmap, 1) == seq![(SegmentColor::Empty, 1nat)],
{
    lemma_one_byte(bitmap, 1);
    assert(ones_among_first(bitmap[0], 0) == 0);
    assert(pieces_in_byte(1, 0) == 1);
    lemma_weight_sum_single(byte_class(bitmap, 1, 0));
}

/// With two pieces of which exactly one is complete, the one byte read is
/// half full; a single half byte makes a started segment.
pub proof fn lemma_two_pieces_one_done(bitmap: Seq<u8>)
    requires
        bitmap.len() > 0,
        piece_bit(bitmap[0], 0) != piece_bit(bitmap[0], 1),
    ensures
        piece_classes(bitmap, 2) == seq![PieceClass::Half],
        quantize_model(bitmap, 2) == seq![(SegmentColor::Started, 1nat)],
{
    lemma_one_byte(bitmap, 2);
    assert(ones_among_first(bitmap[0], 0) == 0);
    assert(ones_among_first(bitmap[0], 1) == if piece_bit(bitmap[0], 0) {
        1nat
    } else {
        0nat
    });
    assert(pieces_in_byte(2, 0) == 2);
    lemma_weight_sum_single(byte_class(bitmap, 2, 0));
}

/// With at most eight pieces exactly one byte is read, in one group.
proof fn lemma_one_byte(bitmap: Seq<u8>, piece_count: i64)
    requires
        bitmap.len() > 0,
        1 <= piece_count <= 8,
    ensures
        piece_classes(bitmap, piece_count) == seq![byte_class(bitmap, piece_count, 0)],
        group_colors(piece_classes(bitmap, piece_count)) == seq![
            group_color(seq![byte_class(bitmap, piece_count, 0)]),
        ],
        quantize_model(bitmap, piece_count) == seq![
            (group_color(seq![byte_class(bitmap, piece_count, 0)]), 1nat),
        ],
{
    let cs = piece_classes(bitmap, piece_count);
    assert(cs =~= seq![byte_class(bitmap, piece_count, 0)]);
    assert(group_size(1) == 1);
    assert(group_count(1) == 1);
    assert(cs.subrange(0, 1) =~= cs);
    assert(group_colors(cs) =~= seq![group_color(cs)]);
    let g = group_colors(cs);
    assert(g.drop_last() =~= Seq::<SegmentColor>::empty());
    assert(merge_runs(g.drop_last()) =~= Seq::<(SegmentColor, nat)>::empty());
    assert(merge_runs(g) =~= seq![(group_color(cs), 1nat)]);
}

/// The weight of a single byte.
proof fn lemma_weight_sum_single(c: PieceClass)
    ensures
        weight_sum(seq![c]) == class_weight(c),
{
    assert(seq![c].drop_last() =~= Seq::<PieceClass>::empty());
    assert(weight_sum(seq![c].drop_last()) == 0);
    assert(seq![c].last() == c);
}

/// Sum of the widths of a sequence of runs.
pub open spec fn width_total(runs: Seq<(SegmentColor, nat)>) -> nat
    decreases runs.len(),
{
    if runs.len() == 0 {
        0
    } else {
        width_total(runs.drop_last()) + runs.last().1
    }
}

/// The runs of a colour sequence tile it: their widths are positive and add
/// up to its length, and no two neighbouring runs share a colour, so no
/// further merge is possible.
pub proof fn lemma_runs_tile(colors: Seq<SegmentColor>)
    ensures
        width_total(merge_runs(colors)) == colors.len(),
        forall|i: int| 0 <= i < merge_runs(colors).len() ==> merge_runs(colors)[i].1 >= 1,
        forall|i: int|
            0 <= i < merge_runs(colors).len() - 1 ==> #[trigger] merge_runs(colors)[i].0
                != merge_runs(colors)[i + 1].0,
        colors.len() > 0 ==> merge_runs(colors).len() > 0,
    decreases colors.len(),
{
    if colors.len() > 0 {
        let prev = colors.drop_last();
        let r = merge_runs(prev);
        let c = colors.last();
        lemma_runs_tile(prev);
        if r.len() > 0 && r.last().0 == c {
            let u = r.update(r.len() - 1, (c, r.last().1 + 1));
            assert(u.drop_last() =~= r.drop_last());
        } else {
            assert(r.push((c, 1nat)).drop_last() =~= r);
        }
    }
}

/// There are never more than a hundred groups.
pub proof fn lemma_at_most_hundred_groups(k: nat)
    ensures
        group_count(k) <= 100,
{
    if k > 0 {
        let size = group_size(k) as int;
        let q = (k - 1) / 100;
        vstd::arithmetic::div_mod::lemma_fundamental_div_mod(k - 1, 100);
        assert(k <= 100 * size);
        assert(k + size - 1 <= 101 * size - 1);
        vstd::arithmetic::div_mod::lemma_div_is_ordered(k + size - 1, 101 * size - 1, size);
        assert(101 * size - 1 < 101 * size);
        vstd::arithmetic::div_mod::lemma_fundamental_div_mod(101 * size - 1, size);
        assert((101 * size - 1) / size <= 100) by (nonlinear_arith)
            requires
                101 * size - 1 == size * ((101 * size - 1) / size) + (101 * size - 1) % size,
                0 <= (101 * size - 1) % size,
                size >= 1,
        ;
    }
}

/// The segments of a bitmap tile the bar: widths add up to the number of
/// groups, which is at most a hundred and positive whenever a byte is read,
/// every width is positive, and neighbouring segments differ in colour.
pub proof fn lemma_segments_tile(bitmap: Seq<u8>, piece_count: i64)
    ensures
        width_total(quantize_model(bitmap, piece_count)) == group_count(
            interpreted_len(bitmap.len(), piece_count),
        ),
        group_count(interpreted_len(bitmap.len(), piece_count)) <= 100,
        interpreted_len(bitmap.len(), piece_count) > 0 ==> quantize_model(bitmap, piece_count).len()
            > 0,
        forall|i: int|
            0 <= i < quantize_model(bitmap, piece_count).len() ==> quantize_model(
                bitmap,
                piece_count,
            )[i].1 >= 1,
        forall|i: int|
            0 <= i < quantize_model(bitmap, piece_count).len() - 1 ==> #[trigger] quantize_model(
                bitmap,
                piece_count,
            )[i].0 != quantize_model(bitmap, piece_count)[i + 1].0,
{
    let cs = piece_classes(bitmap, piece_count);
    lemma_runs_tile(group_colors(cs));
    lemma_at_most_hundred_groups(cs.len());
    if cs.len() > 0 {
        lemma_some_group(cs.len());
    }
}

} // verus!
