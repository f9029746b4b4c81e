//! Progress-bar colours for a torrent, and the decoding of the daemon's
//! base64 piece bitmap before it is quantized.

use vstd::prelude::*;
use crate::error::ClientError;
use crate::quantize::{
    group_count, interpreted_len, lemma_segments_tile, quantize, quantize_model, segments_view,
    width_total, ColorSegment, SegmentColor,
};
use crate::status::TorrentStatus;

verus! {

/// base64's decoding error, carried without looking inside.
#[verifier::external_type_specification]
#[verifier::external_body]
pub struct ExDecodeError(base64::DecodeError);

/// What the standard base64 alphabet, with padding, decodes a text to; `None`
/// where the text is not valid base64.
pub uninterp spec fn base64_decoding(s: Seq<char>) -> Option<Seq<u8>>;

/// Relies on `base64::engine::general_purpose::STANDARD.decode`: the outcome
/// depends on the input text alone, and an error means that the text is not
/// valid base64.
#[verifier::external_body]
fn decode_base64(s: &str) -> (r: Result<Vec<u8>, base64::DecodeError>)
    ensures
        r matches Ok(v) ==> base64_decoding(s@) == Some(v@),
        r is Err ==> base64_decoding(s@) is None,
{
    base64::Engine::decode(&base64::engine::general_purpose::STANDARD, s)
}

/// The style classes of a progress bar, chosen by the torrent's status.
#[derive(Clone, Debug)]
pub struct Colors {
    pub complete: String,
    pub incomplete: String,
    pub started: String,
}

/// One painted segment of the progress bar: a style class and a relative width.
#[derive(Clone, Debug)]
pub struct TempChunk {
    pub color: String,
    pub width: usize,
}

/// The style of a group that holds no completed piece, the same for every
/// status.
pub open spec fn empty_color() -> Seq<char> {
    "bg-grey-800"@
}

/// The three style classes for a status, in the order complete, incomplete,
/// started.
pub open spec fn status_colors(s: TorrentStatus) -> (Seq<char>, Seq<char>, Seq<char>) {
    match s {
        TorrentStatus::Seeding => (
            "bg-green-200 dark:bg-green-300"@,
            "bg-green-300 dark:bg-green-600"@,
            "bg-green-400 dark:bg-green-600"@,
        ),
        TorrentStatus::Downloading => (
            "bg-blue-100 dark:bg-blue-300"@,
            "bg-blue-400 dark:bg-blue-600"@,
            "bg-blue-500 dark:bg-blue-600"@,
        ),
        TorrentStatus::Verifying => (
            "bg-verifying-200 dark:bg-verifying-300"@,
            "bg-verifying-300 dark:bg-verifying-600"@,
            "bg-verifying-400 dark:bg-verifying-600"@,
        ),
        _ => (
            "bg-magenta-200 dark:bg-magenta-300"@,
            "bg-magenta-300 dark:bg-magenta-300"@,
            "bg-magenta-400 dark:bg-magenta-300"@,
        ),
    }
}

/// The style class that paints a segment colour.
pub open spec fn color_name(colors: Colors, c: SegmentColor) -> Seq<char> {
    match c {
        SegmentColor::Complete => colors.complete@,
        SegmentColor::Incomplete => colors.incomplete@,
        SegmentColor::Started => colors.started@,
        SegmentColor::Empty => empty_color(),
    }
}

/// Painted segments as (style class, width) pairs.
pub open spec fn chunks_view(v: Seq<TempChunk>) -> Seq<(Seq<char>, nat)> {
    v.map_values(|c: TempChunk| (c.color@, c.width as nat))
}

/// The painted form of (colour, width) segments.
pub open spec fn painted(colors: Colors, segs: Seq<(SegmentColor, nat)>) -> Seq<(Seq<char>, nat)> {
    segs.map_values(|s: (SegmentColor, nat)| (color_name(colors, s.0), s.1))
}

impl Colors {
    /// The palette of a torrent's progress bar.
    pub fn for_status(status: &TorrentStatus) -> (r: Colors)
        ensures
            (r.complete@, r.incomplete@, r.started@) == status_colors(*status),
    {
        match status {
            TorrentStatus::Seeding => Colors {
                complete: "bg-green-200 dark:bg-green-300".to_owned(),
                incomplete: "bg-green-300 dark:bg-green-600".to_owned(),
                started: "bg-green-400 dark:bg-green-600".to_owned(),
            },
            TorrentStatus::Downloading => Colors {
                complete: "bg-blue-100 dark:bg-blue-300".to_owned(),
                incomplete: "bg-blue-400 dark:bg-blue-600".to_owned(),
                started: "bg-blue-500 dark:bg-blue-600".to_owned(),
            },
            TorrentStatus::Verifying => Colors {
                complete: "bg-verifying-200 dark:bg-verifying-300".to_owned(),
                incomplete: "bg-verifying-300 dark:bg-verifying-600".to_owned(),
                started: "bg-verifying-400 dark:bg-verifying-600".to_owned(),
            },
            _ => Colors {
                complete: "bg-magenta-200 dark:bg-magenta-300".to_owned(),
                incomplete: "bg-magenta-300 dark:bg-magenta-300".to_owned(),
                started: "bg-magenta-400 dark:bg-magenta-300".to_owned(),
            },
        }
    }

    /// The style class of a segment colour.
    pub fn name_of(&self, c: SegmentColor) -> (r: String)
        ensures
            r@ == color_name(*self, c),
    {
        match c {
            SegmentColor::Complete => self.complete.clone(),
            SegmentColor::Incomplete => self.incomplete.clone(),
            SegmentColor::Started => self.started.clone(),
            SegmentColor::Empty => "bg-grey-800".to_owned(),
        }
    }
}

/// Adds one painted run to the chunks, widening the last chunk when it has
/// the same style class.
pub open spec fn merge_style_step(runs: Seq<(Seq<char>, nat)>, c: (Seq<char>, nat)) -> Seq<
    (Seq<char>, nat),
> {
    if runs.len() > 0 && runs.last().0 == c.0 {
        runs.update(runs.len() - 1, (c.0, runs.last().1 + c.1))
    } else {
        runs.push(c)
    }
}

/// Merges neighbouring painted runs of the same style class.
pub open spec fn merge_styles(s: Seq<(Seq<char>, nat)>) -> Seq<(Seq<char>, nat)>
    decreases s.len(),
{
    if s.len() == 0 {
        Seq::empty()
    } else {
        merge_style_step(merge_styles(s.drop_last()), s.last())
    }
}

/// Sum of the widths of painted runs.
pub open spec fn style_total(s: Seq<(Seq<char>, nat)>) -> nat
    decreases s.len(),
{
    if s.len() == 0 {
        0
    } else {
        style_total(s.drop_last()) + s.last().1
    }
}

/// The chunks of a bitmap: its segments painted, neighbours of one style
/// class merged.
pub open spec fn bar_chunks(colors: Colors, bitmap: Seq<u8>, piece_count: i64) -> Seq<
    (Seq<char>, nat),
> {
    merge_styles(painted(colors, quantize_model(bitmap, piece_count)))
}

/// A prefix of runs is no wider than the whole.
proof fn lemma_width_total_prefix(s: Seq<(SegmentColor, nat)>, i: int)
    requires
        0 <= i <= s.len(),
    ensures
        width_total(s.take(i)) <= width_total(s),
    decreases s.len(),
{
    if i < s.len() {
        lemma_width_total_prefix(s.drop_last(), i);
        assert(s.drop_last().take(i) =~= s.take(i));
    } else {
        assert(s.take(i) =~= s);
    }
}

/// Painting keeps the total width.
proof fn lemma_painted_total(colors: Colors, s: Seq<(SegmentColor, nat)>)
    ensures
        style_total(painted(colors, s)) == width_total(s),
    decreases s.len(),
{
    if s.len() > 0 {
        lemma_painted_total(colors, s.drop_last());
        assert(painted(colors, s).drop_last() =~= painted(colors, s.drop_last()));
    }
}

/// Merging keeps the total width, keeps widths positive, and leaves no two
/// neighbouring runs with one style class.
pub proof fn lemma_merge_styles_tile(s: Seq<(Seq<char>, nat)>)
    requires
        forall|i: int| 0 <= i < s.len() ==> s[i].1 >= 1,
    ensures
        style_total(merge_styles(s)) == style_total(s),
        forall|i: int| 0 <= i < merge_styles(s).len() ==> merge_styles(s)[i].1 >= 1,
        forall|i: int|
            0 <= i < merge_styles(s).len() - 1 ==> #[trigger] merge_styles(s)[i].0 != merge_styles(
                s,
            )[i + 1].0,
    decreases s.len(),
{
    if s.len() > 0 {
        let prev = s.drop_last();
        let r = merge_styles(prev);
        let c = s.last();
        lemma_merge_styles_tile(prev);
        if r.len() > 0 && r.last().0 == c.0 {
            let u = r.update(r.len() - 1, (c.0, r.last().1 + c.1));
            assert(u.drop_last() =~= r.drop_last());
        } else {
            assert(r.push(c).drop_last() =~= r);
        }
    }
}

/// Gives each segment its style class, merging neighbours that end up with
/// the same class; order and total width are kept.
fn paint_segments(colors: &Colors, segs: &Vec<ColorSegment>) -> (r: Vec<TempChunk>)
    requires
        width_total(segments_view(segs@)) <= usize::MAX,
    ensures
        chunks_view(r@) == merge_styles(painted(*colors, segments_view(segs@))),
{
    let ghost all = segments_view(segs@);
    let mut out: Vec<TempChunk> = Vec::new();
    let mut i: usize = 0;
    while i < segs.len()
        invariant
            all == segments_view(segs@),
            width_total(all) <= usize::MAX,
            i <= segs@.len(),
            chunks_view(out@) == merge_styles(painted(*colors, segments_view(segs@.take(i as int)))),
            style_total(chunks_view(out@)) == width_total(segments_view(segs@.take(i as int))),
        decreases segs@.len() - i,
    {
        let seg = segs[i];
        let ghost before = chunks_view(out@);
        let ghost prefix = segments_view(segs@.take(i as int));
        let ghost next = segments_view(segs@.take(i + 1));
        assert(next.drop_last() =~= prefix);
        assert(next.last() == (seg.color, seg.width as nat));
        assert(painted(*colors, next).drop_last() =~= painted(*colors, prefix));
        proof {
            lemma_width_total_prefix(all, i + 1);
            assert(segments_view(segs@.take(i + 1)) =~= all.take(i + 1));
        }
        let name = colors.name_of(seg.color);
        let n = out.len();
        if n > 0 && out[n - 1].color == name {
            let w = out[n - 1].width;
            assert(before.drop_last() + seq![before.last()] =~= before);
            out.set(n - 1, TempChunk { color: name, width: w + seg.width });
            assert(chunks_view(out@) =~= merge_style_step(before, (name@, seg.width as nat)));
            assert(chunks_view(out@).drop_last() =~= before.drop_last());
        } else {
            out.push(TempChunk { color: name, width: seg.width });
            assert(chunks_view(out@) =~= merge_style_step(before, (name@, seg.width as nat)));
            assert(chunks_view(out@).drop_last() =~= before);
        }
        i = i + 1;
    }
    assert(segs@.take(i as int) =~= segs@);
    out
}

/// Decodes the daemon's base64 piece bitmap, quantizes it, paints the
/// segments and merges neighbours of one style class. Text that is not valid
/// base64 is a protocol error.
pub fn build_progress_bar_pieces(colors: Colors, pieces: &str, piece_count: i64) -> (r: Result<
    Vec<TempChunk>,
    ClientError,
>)
    ensures
        base64_decoding(pieces@) is None <==> r is Err,
        r matches Err(e) ==> e is Protocol,
        base64_decoding(pieces@) matches Some(bitmap) ==> (r matches Ok(v) && chunks_view(v@)
            == bar_chunks(colors, bitmap, piece_count)),
        base64_decoding(pieces@) matches Some(bitmap) ==> (r matches Ok(v) && style_total(
            chunks_view(v@),
        ) == group_count(interpreted_len(bitmap.len(), piece_count))),
        r matches Ok(v) ==> forall|i: int| 0 <= i < v@.len() ==> v@[i].width >= 1,
        r matches Ok(v) ==> forall|i: int|
            0 <= i < v@.len() - 1 ==> #[trigger] v@[i].color@ != v@[i + 1].color@,
{
    match decode_base64(pieces) {
        Ok(bitmap) => {
            let segs = quantize(&bitmap, piece_count);
            let ghost model = quantize_model(bitmap@, piece_count);
            proof {
                lemma_segments_tile(bitmap@, piece_count);
                lemma_painted_total(colors, model);
                lemma_merge_styles_tile(painted(colors, model));
            }
            let chunks = paint_segments(&colors, &segs);
            assert forall|i: int| 0 <= i < chunks@.len() implies chunks@[i].width >= 1 by {
                assert(chunks_view(chunks@)[i] == (chunks@[i].color@, chunks@[i].width as nat));
            }
            assert forall|i: int| 0 <= i < chunks@.len() - 1 implies #[trigger] chunks@[i].color@
                != chunks@[i + 1].color@ by {
                let m = merge_styles(painted(colors, model));
                assert(chunks_view(chunks@) == m);
                assert(m[i].0 != m[i + 1].0);
                assert(chunks_view(chunks@)[i] == (chunks@[i].color@, chunks@[i].width as nat));
                assert(chunks_view(chunks@)[i + 1] == (chunks@[i + 1].color@, chunks@[i
                    + 1].width as nat));
            }
            Ok(chunks)
        },
        Err(_) => Err(ClientError::Protocol("piece bitmap is not valid base64".to_owned())),
    }
}

} // verus!
