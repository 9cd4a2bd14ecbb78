//! Negotiation of the wire format from an accept header.
//!
//! The header is a comma-separated list of media ranges. Each range is a
//! media type followed by `;`-separated parameters, one of which may be a
//! quality value `q=`. Ranges whose media type this gateway understands are
//! the candidates; the candidate of highest quality wins, and among equals
//! the one listed first.

use vstd::prelude::*;
use crate::content_type::ApiContentType;
use crate::content_type::spec_supported_encoding;
use crate::content_type::supported_encoding;

verus! {

/// The byte `,`, which separates the media ranges of a header.
pub const COMMA: u8 = 44;

/// The byte `;`, which separates a media type and its parameters.
pub const SEMICOLON: u8 = 59;

/// The byte `q`, the name of the quality parameter.
pub const LOWER_Q: u8 = 113;

/// The byte `=`, which follows a parameter's name.
pub const EQUALS: u8 = 61;

/// A byte that a header value may hold if it is to be read as text.
pub open spec fn is_visible_ascii(b: u8) -> bool {
    (32 <= b < 127) || b == 9
}

/// ASCII white space, which is trimmed from both ends of a range and of a
/// parameter.
pub open spec fn is_blank(b: u8) -> bool {
    b == 32 || (9 <= b <= 13)
}

/// Whether every byte of `s` is visible ASCII.
pub open spec fn all_visible_ascii(s: Seq<u8>) -> bool {
    forall|k: int| 0 <= k < s.len() ==> is_visible_ascii(#[trigger] s[k])
}

/// Where the field that starts at `lo` ends: at the first `sep` in
/// `[lo, hi)`, or at `hi` where there is none.
pub open spec fn field_end(s: Seq<u8>, lo: int, hi: int, sep: u8) -> int
    decreases hi - lo,
{
    if lo < hi && s[lo] != sep {
        field_end(s, lo + 1, hi, sep)
    } else {
        lo
    }
}

/// The start of `[lo, hi)` once leading white space is gone.
pub open spec fn trim_lo(s: Seq<u8>, lo: int, hi: int) -> int
    decreases hi - lo,
{
    if lo < hi && is_blank(s[lo]) {
        trim_lo(s, lo + 1, hi)
    } else {
        lo
    }
}

/// The end of `[lo, hi)` once trailing white space is gone.
pub open spec fn trim_hi(s: Seq<u8>, lo: int, hi: int) -> int
    decreases hi - lo,
{
    if lo < hi && is_blank(s[hi - 1]) {
        trim_hi(s, lo, hi - 1)
    } else {
        hi
    }
}

/// A field ends at the first separator at or after its start: no byte of
/// the field is the separator, and the byte at its end is, unless the field
/// runs to `hi`.
pub proof fn lemma_field_end_is_first_separator(s: Seq<u8>, lo: int, hi: int, sep: u8)
    requires
        0 <= lo <= hi <= s.len(),
    ensures
        lo <= field_end(s, lo, hi, sep) <= hi,
        forall|k: int| lo <= k < field_end(s, lo, hi, sep) ==> #[trigger] s[k] != sep,
        field_end(s, lo, hi, sep) < hi ==> s[field_end(s, lo, hi, sep)] == sep,
    decreases hi - lo,
{
    if lo < hi && s[lo] != sep {
        lemma_field_end_is_first_separator(s, lo + 1, hi, sep);
    }
}

/// Trimming takes white space off both ends and nothing else: what is cut
/// off in front and behind is all white space, and what is left neither
/// starts nor ends with white space.
pub proof fn lemma_trim_is_tight(s: Seq<u8>, lo: int, hi: int)
    requires
        0 <= lo <= hi <= s.len(),
    ensures
        lo <= trim_lo(s, lo, hi) <= trim_hi(s, trim_lo(s, lo, hi), hi) <= hi,
        forall|k: int| lo <= k < trim_lo(s, lo, hi) ==> is_blank(#[trigger] s[k]),
        forall|k: int|
            trim_hi(s, trim_lo(s, lo, hi), hi) <= k < hi ==> is_blank(#[trigger] s[k]),
        trim_lo(s, lo, hi) < trim_hi(s, trim_lo(s, lo, hi), hi) ==> !is_blank(
            s[trim_lo(s, lo, hi)],
        ) && !is_blank(s[trim_hi(s, trim_lo(s, lo, hi), hi) - 1]),
{
    lemma_trim_lo(s, lo, hi);
    lemma_trim_hi(s, trim_lo(s, lo, hi), hi);
}

proof fn lemma_trim_lo(s: Seq<u8>, lo: int, hi: int)
    requires
        0 <= lo <= hi <= s.len(),
    ensures
        lo <= trim_lo(s, lo, hi) <= hi,
        forall|k: int| lo <= k < trim_lo(s, lo, hi) ==> is_blank(#[trigger] s[k]),
        trim_lo(s, lo, hi) < hi ==> !is_blank(s[trim_lo(s, lo, hi)]),
    decreases hi - lo,
{
    if lo < hi && is_blank(s[lo]) {
        lemma_trim_lo(s, lo + 1, hi);
    }
}

proof fn lemma_trim_hi(s: Seq<u8>, lo: int, hi: int)
    requires
        0 <= lo <= hi <= s.len(),
    ensures
        lo <= trim_hi(s, lo, hi) <= hi,
        forall|k: int| trim_hi(s, lo, hi) <= k < hi ==> is_blank(#[trigger] s[k]),
        lo < trim_hi(s, lo, hi) ==> !is_blank(s[trim_hi(s, lo, hi) - 1]),
    decreases hi - lo,
{
    if lo < hi && is_blank(s[hi - 1]) {
        lemma_trim_hi(s, lo, hi - 1);
    }
}

/// Whether the text in `[lo, hi)` starts with `q=`.
pub open spec fn has_quality_prefix(s: Seq<u8>, lo: int, hi: int) -> bool {
    hi - lo >= 2 && s[lo] == LOWER_Q && s[lo + 1] == EQUALS
}

/// The text of the quality value among the parameters in `[lo, hi)`: what
/// follows `q=` in the first trimmed parameter that starts with it.
pub open spec fn quality_text(s: Seq<u8>, lo: int, hi: int) -> Option<Seq<u8>>
    decreases hi - lo,
{
    let end = field_end(s, lo, hi, SEMICOLON);
    let a = trim_lo(s, lo, end);
    let b = trim_hi(s, a, end);
    if has_quality_prefix(s, a, b) {
        Some(s.subrange(a + 2, b))
    } else if lo <= end < hi {
        quality_text(s, end + 1, hi)
    } else {
        None
    }
}

/// One media range that names a format this gateway understands.
pub struct AcceptCandidate {
    /// The format that the media type names.
    pub content_type: ApiContentType,
    /// The text of the range's quality value, where it has one.
    pub quality: Option<Vec<u8>>,
}

/// The mathematical value of an [`AcceptCandidate`].
pub struct AcceptCandidateView {
    pub content_type: ApiContentType,
    pub quality: Option<Seq<u8>>,
}

impl View for AcceptCandidate {
    type V = AcceptCandidateView;

    open spec fn view(&self) -> AcceptCandidateView {
        AcceptCandidateView {
            content_type: self.content_type,
            quality: match self.quality {
                Some(q) => Some(q@),
                None => None,
            },
        }
    }
}

/// The values of a list of candidates, in order.
pub open spec fn candidate_views(v: Seq<AcceptCandidate>) -> Seq<AcceptCandidateView> {
    v.map_values(|c: AcceptCandidate| c@)
}

/// The candidate that the media range in `[lo, hi)` gives, if its media type
/// is understood. The range is trimmed, its first `;`-separated field is the
/// media type, and the remaining fields are its parameters.
pub open spec fn candidate_of(s: Seq<u8>, lo: int, hi: int) -> Option<AcceptCandidateView> {
    let a = trim_lo(s, lo, hi);
    let b = trim_hi(s, a, hi);
    let mime_end = field_end(s, a, b, SEMICOLON);
    let ma = trim_lo(s, a, mime_end);
    let mb = trim_hi(s, ma, mime_end);
    match spec_supported_encoding(s.subrange(ma, mb)) {
        None => None,
        Some(content_type) => Some(
            AcceptCandidateView {
                content_type,
                quality: if mime_end < b {
                    quality_text(s, mime_end + 1, b)
                } else {
                    None
                },
            },
        ),
    }
}

/// The candidates of the comma-separated ranges in `[lo, hi)`, in the order
/// in which the header lists them.
pub open spec fn candidates_from(s: Seq<u8>, lo: int, hi: int) -> Seq<AcceptCandidateView>
    decreases hi - lo,
{
    let end = field_end(s, lo, hi, COMMA);
    let rest = if lo <= end < hi {
        candidates_from(s, end + 1, hi)
    } else {
        Seq::empty()
    };
    match candidate_of(s, lo, end) {
        Some(c) => seq![c] + rest,
        None => rest,
    }
}

/// The candidates of a whole header value. A value that cannot be read as
/// text, because some byte of it is not visible ASCII, has none.
pub open spec fn spec_accept_candidates(s: Seq<u8>) -> Seq<AcceptCandidateView> {
    if all_visible_ascii(s) {
        candidates_from(s, 0, s.len() as int)
    } else {
        Seq::empty()
    }
}

fn find_end(s: &[u8], lo: usize, hi: usize, sep: u8) -> (end: usize)
    requires
        lo <= hi <= s@.len(),
    ensures
        end == field_end(s@, lo as int, hi as int, sep),
        lo <= end <= hi,
{
    let mut i: usize = lo;
    while i < hi && s[i] != sep
        invariant
            lo <= i <= hi <= s@.len(),
            field_end(s@, i as int, hi as int, sep) == field_end(s@, lo as int, hi as int, sep),
        decreases hi - i,
    {
        i += 1;
    }
    i
}

fn blank(b: u8) -> (r: bool)
    ensures
        r == is_blank(b),
{
    b == 32 || (9 <= b && b <= 13)
}

fn trim_start(s: &[u8], lo: usize, hi: usize) -> (start: usize)
    requires
        lo <= hi <= s@.len(),
    ensures
        start == trim_lo(s@, lo as int, hi as int),
        lo <= start <= hi,
{
    let mut i: usize = lo;
    while i < hi && blank(s[i])
        invariant
            lo <= i <= hi <= s@.len(),
            trim_lo(s@, i as int, hi as int) == trim_lo(s@, lo as int, hi as int),
        decreases hi - i,
    {
        i += 1;
    }
    i
}

fn trim_end(s: &[u8], lo: usize, hi: usize) -> (end: usize)
    requires
        lo <= hi <= s@.len(),
    ensures
        end == trim_hi(s@, lo as int, hi as int),
        lo <= end <= hi,
{
    let mut j: usize = hi;
    while lo < j && blank(s[j - 1])
        invariant
            lo <= j <= hi <= s@.len(),
            trim_hi(s@, lo as int, j as int) == trim_hi(s@, lo as int, hi as int),
        decreases j - lo,
    {
        j -= 1;
    }
    j
}

fn copy_range(s: &[u8], lo: usize, hi: usize) -> (out: Vec<u8>)
    requires
        lo <= hi <= s@.len(),
    ensures
        out@ == s@.subrange(lo as int, hi as int),
{
    let mut out: Vec<u8> = Vec::new();
    let mut i: usize = lo;
    while i < hi
        invariant
            lo <= i <= hi <= s@.len(),
            out@ == s@.subrange(lo as int, i as int),
        decreases hi - i,
    {
        out.push(s[i]);
        i += 1;
        assert(out@ =~= s@.subrange(lo as int, i as int));
    }
    out
}

fn find_quality(s: &[u8], lo: usize, hi: usize) -> (quality: Option<Vec<u8>>)
    requires
        lo <= hi <= s@.len(),
    ensures
        match quality {
            Some(q) => quality_text(s@, lo as int, hi as int) == Some(q@),
            None => quality_text(s@, lo as int, hi as int) is None,
        },
{
    let mut pos: usize = lo;
    loop
        invariant
            lo <= pos <= hi <= s@.len(),
            quality_text(s@, pos as int, hi as int) == quality_text(s@, lo as int, hi as int),
        decreases hi - pos,
    {
        let end = find_end(s, pos, hi, SEMICOLON);
        let a = trim_start(s, pos, end);
        let b = trim_end(s, a, end);
        if b - a >= 2 && s[a] == LOWER_Q && s[a + 1] == EQUALS {
            return Some(copy_range(s, a + 2, b));
        }
        if end < hi {
            pos = end + 1;
        } else {
            return None;
        }
    }
}

fn candidate(s: &[u8], lo: usize, hi: usize) -> (found: Option<AcceptCandidate>)
    requires
        lo <= hi <= s@.len(),
    ensures
        match found {
            Some(c) => candidate_of(s@, lo as int, hi as int) == Some(c@),
            None => candidate_of(s@, lo as int, hi as int) is None,
        },
{
    let a = trim_start(s, lo, hi);
    let b = trim_end(s, a, hi);
    let mime_end = find_end(s, a, b, SEMICOLON);
    let ma = trim_start(s, a, mime_end);
    let mb = trim_end(s, ma, mime_end);
    let mime = vstd::slice::slice_subrange(s, ma, mb);
    match supported_encoding(mime) {
        None => None,
        Some(content_type) => {
            let quality = if mime_end < b {
                find_quality(s, mime_end + 1, b)
            } else {
                None
            };
            Some(AcceptCandidate { content_type, quality })
        },
    }
}

fn visible_ascii(s: &[u8]) -> (r: bool)
    ensures
        r == all_visible_ascii(s@),
{
    let mut i: usize = 0;
    while i < s.len()
        invariant
            i <= s@.len(),
            forall|k: int| 0 <= k < i ==> is_visible_ascii(#[trigger] s@[k]),
        decreases s.len() - i,
    {
        let b = s[i];
        if !((32 <= b && b < 127) || b == 9) {
            return false;
        }
        i += 1;
    }
    true
}

/// The candidates that an accept header value lists, in its order.
pub fn accept_candidates(accept: &[u8]) -> (found: Vec<AcceptCandidate>)
    ensures
        candidate_views(found@) == spec_accept_candidates(accept@),
{
    let mut out: Vec<AcceptCandidate> = Vec::new();
    if !visible_ascii(accept) {
        assert(candidate_views(out@) =~= Seq::empty());
        return out;
    }
    let n: usize = accept.len();
    let mut pos: usize = 0;
    let mut done: bool = false;
    assert(candidate_views(out@) + candidates_from(accept@, 0, n as int) =~= candidates_from(
        accept@,
        0,
        n as int,
    ));
    while !done
        invariant
            pos <= n == accept@.len(),
            !done ==> candidate_views(out@) + candidates_from(accept@, pos as int, n as int)
                == candidates_from(accept@, 0, n as int),
            done ==> candidate_views(out@) == candidates_from(accept@, 0, n as int),
        decreases (n - pos) + (if done { 0int } else { 1int }),
    {
        let end = find_end(accept, pos, n, COMMA);
        let ghost before = candidate_views(out@);
        let ghost rest = if end < n {
            candidates_from(accept@, end + 1, n as int)
        } else {
            Seq::empty()
        };
        match candidate(accept, pos, end) {
            Some(c) => {
                out.push(c);
                assert(candidate_views(out@) =~= before.push(c@));
                assert(before.push(c@) + rest =~= before + (seq![c@] + rest));
            },
            None => {},
        }
        if end < n {
            pos = end + 1;
        } else {
            done = true;
            assert(candidate_views(out@) + rest =~= candidate_views(out@));
        }
    }
    out
}

/// The bit pattern of the quality of a range that states none: that of the
/// number one in IEEE 754 single precision.
pub const DEFAULT_QUALITY_BITS: u32 = 0x3F80_0000;

/// The bit pattern of the quality of a range whose quality value is no
/// number: that of positive zero.
pub const UNPARSED_QUALITY_BITS: u32 = 0;

/// A candidate together with its quality, held as the bit pattern of an
/// IEEE 754 single-precision number.
#[derive(Debug, Clone, Copy, PartialEq, Eq, Structural)]
pub struct RankedCandidate {
    /// The format that the candidate names.
    pub content_type: ApiContentType,
    /// The bits of its quality.
    pub quality_bits: u32,
}

/// The quality of a candidate: the default where the range states none,
/// zero where its text is no number, and else the number it parsed to.
pub open spec fn spec_quality_bits(quality: Option<Seq<u8>>, parsed: Option<u32>) -> u32 {
    match quality {
        None => DEFAULT_QUALITY_BITS,
        Some(_) => match parsed {
            Some(bits) => bits,
            None => UNPARSED_QUALITY_BITS,
        },
    }
}

impl RankedCandidate {
    /// Ranks `candidate`. `parsed` holds the bits of the number that the
    /// candidate's quality text parsed to, or nothing where it is no number;
    /// it is not looked at where the candidate has no quality text.
    pub fn new(candidate: &AcceptCandidate, parsed: Option<u32>) -> (ranked: RankedCandidate)
        ensures
            ranked.content_type == candidate@.content_type,
            ranked.quality_bits == spec_quality_bits(candidate@.quality, parsed),
    {
        let quality_bits = match candidate.quality {
            None => DEFAULT_QUALITY_BITS,
            Some(_) => match parsed {
                Some(bits) => bits,
                None => UNPARSED_QUALITY_BITS,
            },
        };
        RankedCandidate { content_type: candidate.content_type, quality_bits }
    }
}

/// The place of a single-precision bit pattern in the total order of
/// IEEE 754: patterns with the sign bit clear rise with the pattern, those
/// with the sign bit set lie below all of them and fall as the pattern
/// rises, so that negative zero is just under positive zero.
pub open spec fn total_order_key(bits: u32) -> int {
    if bits < 0x8000_0000 {
        bits as int
    } else {
        -1 - (bits - 0x8000_0000)
    }
}

/// Two bit patterns have the same place in the total order only where they
/// are the same pattern, and a pattern with the sign bit set lies below every
/// pattern with the sign bit clear.
pub proof fn lemma_total_order_key_is_strict(a: u32, b: u32)
    ensures
        total_order_key(a) == total_order_key(b) <==> a == b,
        a >= 0x8000_0000 && b < 0x8000_0000 ==> total_order_key(a) < total_order_key(b),
{
}

/// Among the first `n` candidates, the index of the first one of highest
/// quality.
pub open spec fn preferred_index(ranked: Seq<RankedCandidate>, n: int) -> int
    decreases n,
{
    if n <= 1 {
        0
    } else {
        let best = preferred_index(ranked, n - 1);
        if total_order_key(ranked[n - 1].quality_bits) > total_order_key(
            ranked[best].quality_bits,
        ) {
            n - 1
        } else {
            best
        }
    }
}

/// The format that negotiation selects among ranked candidates: none where
/// there is no candidate, else that of the first candidate of highest quality.
pub open spec fn spec_select_preferred(ranked: Seq<RankedCandidate>) -> Option<ApiContentType> {
    if ranked.len() == 0 {
        None
    } else {
        Some(ranked[preferred_index(ranked, ranked.len() as int)].content_type)
    }
}

fn order_key(bits: u32) -> (key: i64)
    ensures
        key == total_order_key(bits),
{
    if bits < 0x8000_0000 {
        bits as i64
    } else {
        -1 - ((bits - 0x8000_0000) as i64)
    }
}

/// Selects the format to use among ranked candidates.
pub fn select_preferred(ranked: &Vec<RankedCandidate>) -> (selected: Option<ApiContentType>)
    ensures
        selected == spec_select_preferred(ranked@),
{
    if ranked.len() == 0 {
        return None;
    }
    let mut best: usize = 0;
    let mut i: usize = 1;
    while i < ranked.len()
        invariant
            1 <= i <= ranked@.len(),
            best < i,
            best == preferred_index(ranked@, i as int),
        decreases ranked.len() - i,
    {
        if order_key(ranked[i].quality_bits) > order_key(ranked[best].quality_bits) {
            best = i;
        }
        i += 1;
    }
    Some(ranked[best].content_type)
}

/// The candidates ranked: each keeps its format and gets its quality from
/// its own text and from what that text parsed to.
pub open spec fn spec_ranking(
    candidates: Seq<AcceptCandidateView>,
    parsed: Seq<Option<u32>>,
) -> Seq<RankedCandidate> {
    Seq::new(
        candidates.len(),
        |i: int|
            RankedCandidate {
                content_type: candidates[i].content_type,
                quality_bits: spec_quality_bits(candidates[i].quality, parsed[i]),
            },
    )
}

/// Weighs the candidates of a header and selects the format. `parsed` holds,
/// for each candidate in turn, the bits of the number that its quality text
/// parsed to, or nothing where the text is no number or is absent.
pub fn weigh(candidates: &Vec<AcceptCandidate>, parsed: &Vec<Option<u32>>) -> (selected: Option<
    ApiContentType,
>)
    requires
        parsed@.len() == candidates@.len(),
    ensures
        selected == spec_select_preferred(spec_ranking(candidate_views(candidates@), parsed@)),
{
    let mut ranked: Vec<RankedCandidate> = Vec::new();
    let mut i: usize = 0;
    while i < candidates.len()
        invariant
            i <= candidates@.len() == parsed@.len(),
            ranked@.len() == i,
            forall|k: int|
                0 <= k < i ==> #[trigger] ranked@[k] == spec_ranking(
                    candidate_views(candidates@),
                    parsed@,
                )[k],
        decreases candidates.len() - i,
    {
        ranked.push(RankedCandidate::new(&candidates[i], parsed[i]));
        i += 1;
    }
    assert(ranked@ =~= spec_ranking(candidate_views(candidates@), parsed@));
    select_preferred(&ranked)
}

/// The selected candidate is the first of highest quality: it lies in the
/// list, no candidate has a higher quality, and every candidate before it
/// has a lower one. So the highest quality wins wherever it is listed, and
/// among candidates of equal quality the one listed first.
pub proof fn lemma_preferred_is_first_maximum(ranked: Seq<RankedCandidate>, n: int)
    requires
        1 <= n <= ranked.len(),
    ensures
        0 <= preferred_index(ranked, n) < n,
        forall|j: int|
            0 <= j < n ==> total_order_key(#[trigger] ranked[j].quality_bits) <= total_order_key(
                ranked[preferred_index(ranked, n)].quality_bits,
            ),
        forall|j: int|
            0 <= j < preferred_index(ranked, n) ==> total_order_key(
                #[trigger] ranked[j].quality_bits,
            ) < total_order_key(ranked[preferred_index(ranked, n)].quality_bits),
    decreases n,
{
    if n > 1 {
        lemma_preferred_is_first_maximum(ranked, n - 1);
    }
}

/// A candidate whose quality is strictly above that of every other one is
/// selected, wherever in the list it stands.
pub proof fn lemma_highest_quality_wins(ranked: Seq<RankedCandidate>, i: int)
    requires
        0 <= i < ranked.len(),
        forall|j: int|
            0 <= j < ranked.len() && j != i ==> total_order_key(#[trigger] ranked[j].quality_bits)
                < total_order_key(ranked[i].quality_bits),
    ensures
        spec_select_preferred(ranked) == Some(ranked[i].content_type),
{
    lemma_preferred_is_first_maximum(ranked, ranked.len() as int);
    let p = preferred_index(ranked, ranked.len() as int);
    if p != i {
        assert(total_order_key(ranked[p].quality_bits) < total_order_key(ranked[i].quality_bits));
        assert(total_order_key(ranked[i].quality_bits) <= total_order_key(ranked[p].quality_bits));
    }
}

/// Where all candidates have the same quality, the one listed first is
/// selected.
pub proof fn lemma_equal_quality_first_wins(ranked: Seq<RankedCandidate>)
    requires
        ranked.len() > 0,
        forall|j: int|
            0 <= j < ranked.len() ==> total_order_key(#[trigger] ranked[j].quality_bits)
                == total_order_key(ranked[0].quality_bits),
    ensures
        spec_select_preferred(ranked) == Some(ranked[0].content_type),
{
    lemma_preferred_is_first_maximum(ranked, ranked.len() as int);
    let p = preferred_index(ranked, ranked.len() as int);
    if p > 0 {
        assert(total_order_key(ranked[0].quality_bits) < total_order_key(ranked[p].quality_bits));
    }
}

/// A header value that is one media range, with no comma in it, whose media
/// type is not understood has no candidate, and where there is no candidate
/// nothing is selected.
pub proof fn lemma_single_unsupported_fails(s: Seq<u8>)
    requires
        field_end(s, 0, s.len() as int, COMMA) == s.len(),
        candidate_of(s, 0, s.len() as int) is None,
    ensures
        spec_accept_candidates(s) == Seq::<AcceptCandidateView>::empty(),
        spec_select_preferred(Seq::empty()) is None,
{
}

/// A header value that is text and is one media range, with no comma in it,
/// whose media type is understood has that range as its only candidate, and
/// an only candidate is selected whatever its quality.
pub proof fn lemma_single_supported_is_selected(s: Seq<u8>, quality_bits: u32)
    requires
        all_visible_ascii(s),
        field_end(s, 0, s.len() as int, COMMA) == s.len(),
        candidate_of(s, 0, s.len() as int) is Some,
    ensures
        spec_accept_candidates(s) == seq![candidate_of(s, 0, s.len() as int)->0],
        spec_select_preferred(
            seq![
                RankedCandidate {
                    content_type: candidate_of(s, 0, s.len() as int)->0.content_type,
                    quality_bits,
                },
            ],
        ) == Some(candidate_of(s, 0, s.len() as int)->0.content_type),
{
    let c = candidate_of(s, 0, s.len() as int)->0;
    assert(seq![c] + Seq::<AcceptCandidateView>::empty() =~= seq![c]);
}

/// What the first look at an accept header gives.
pub enum Negotiation {
    /// The header is absent, or is exactly one supported media type: the
    /// format is settled.
    Chosen(ApiContentType),
    /// The header has to be weighed: these are its candidates, in its order.
    Weigh(Vec<AcceptCandidate>),
}

/// The format that an accept header settles at first sight: structured text
/// where the header is absent, and the format of a header that is exactly
/// one supported media type.
pub open spec fn spec_exact_match(accept: Option<Seq<u8>>) -> Option<ApiContentType> {
    match accept {
        None => Some(ApiContentType::Json),
        Some(s) => spec_supported_encoding(s),
    }
}

/// Looks at an accept header. An absent header, or one that is exactly a
/// supported media type, settles the format; any other is split into its
/// candidates, whose qualities the caller ranks for [`select_preferred`].
pub fn negotiate(accept: Option<&[u8]>) -> (outcome: Negotiation)
    ensures
        match outcome {
            Negotiation::Chosen(content_type) => spec_exact_match(
                match accept {
                    Some(s) => Some(s@),
                    None => None,
                },
            ) == Some(content_type),
            Negotiation::Weigh(candidates) => accept is Some && spec_supported_encoding(
                accept->0@,
            ) is None && candidate_views(candidates@) == spec_accept_candidates(accept->0@),
        },
{
    match accept {
        None => Negotiation::Chosen(ApiContentType::Json),
        Some(value) => match supported_encoding(value) {
            Some(content_type) => Negotiation::Chosen(content_type),
            None => Negotiation::Weigh(accept_candidates(value)),
        },
    }
}


} // verus!
