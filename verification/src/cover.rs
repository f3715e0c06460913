//! Cover art: which terminal image protocol to use, the per-frame record of
//! placed images, and the Kitty / iTerm2 escape sequences that show a cover.

use vstd::prelude::*;
use std::collections::HashSet;
use vstd::utf8::encode_utf8;
use vstd::string::StringSliceAdditionalSpecFns;
use crate::encoding::{base64, b64};
use crate::text::{contains_text, decimal, text_contains, text_eq};

verus! {

broadcast use vstd::std_specs::hash::group_hash_axioms;

/// How cover images reach the terminal.
#[derive(Clone, Copy, PartialEq, Eq, Debug, Structural)]
pub enum ImageProtocol {
    Kitty,
    ITerm2,
    HalfBlock,
}

/// The protocol for a terminal described by `$TERM`, `$TERM_PROGRAM` and
/// `$KITTY_WINDOW_ID` (each empty when unset): the Kitty graphics protocol
/// in Kitty, WezTerm, Ghostty and iTerm2, half blocks in every other
/// terminal.
pub open spec fn protocol_choice(term: Seq<char>, program: Seq<char>, kitty_window: Seq<char>) -> ImageProtocol {
    if kitty_window.len() > 0 || contains_text(term, "kitty"@) {
        ImageProtocol::Kitty
    } else if program == "WezTerm"@ || contains_text(term, "wezterm"@) {
        ImageProtocol::Kitty
    } else if program == "iTerm.app"@ || program == "Ghostty"@ {
        ImageProtocol::Kitty
    } else {
        ImageProtocol::HalfBlock
    }
}

/// Chooses the image protocol from the terminal's environment values (pass
/// an empty text for an unset variable).
pub fn protocol_for(term: &str, program: &str, kitty_window: &str) -> (p: ImageProtocol)
    ensures
        p == protocol_choice(term@, program@, kitty_window@),
{
    if kitty_window.unicode_len() > 0 || text_contains(term, "kitty") {
        return ImageProtocol::Kitty;
    }
    if text_eq(program, "WezTerm") || text_contains(term, "wezterm") {
        return ImageProtocol::Kitty;
    }
    if text_eq(program, "iTerm.app") || text_eq(program, "Ghostty") {
        return ImageProtocol::Kitty;
    }
    ImageProtocol::HalfBlock
}

/// A rectangle of terminal cells.
#[derive(Clone, Copy, PartialEq, Eq, Debug, Structural)]
pub struct CellArea {
    pub x: u16,
    pub y: u16,
    pub width: u16,
    pub height: u16,
}

/// An image shown at an area, with the frame it was last shown in.
#[derive(Clone, Copy, PartialEq, Eq, Debug, Structural)]
pub struct Placement {
    pub kitty_id: u32,
    pub area: CellArea,
    pub frame: u64,
}

/// The frame recorded for image `kid` at `area`, if any.
pub open spec fn placed_frame(s: Seq<Placement>, kid: u32, area: CellArea) -> Option<u64> {
    if exists|i: int| 0 <= i < s.len() && s[i].kitty_id == kid && s[i].area == area {
        Some(s[choose|i: int| 0 <= i < s.len() && s[i].kitty_id == kid && s[i].area == area].frame)
    } else {
        None
    }
}

/// No image/area pair is recorded twice.
pub open spec fn placements_unique(s: Seq<Placement>) -> bool {
    forall|i: int, j: int|
        0 <= i < s.len() && 0 <= j < s.len() && i != j ==> !(s[i].kitty_id == s[j].kitty_id
            && s[i].area == s[j].area)
}

proof fn lemma_placed_at(s: Seq<Placement>, i: int)
    requires
        placements_unique(s),
        0 <= i < s.len(),
    ensures
        placed_frame(s, s[i].kitty_id, s[i].area) == Some(s[i].frame),
{
    let kid = s[i].kitty_id;
    let area = s[i].area;
    let j = choose|j: int| 0 <= j < s.len() && s[j].kitty_id == kid && s[j].area == area;
    assert(i == j);
}

/// What the renderer remembers between frames: where each image was shown
/// in which frame, which images the terminal already holds, and the escape
/// sequences to write after the frame is drawn.
#[derive(Debug)]
pub struct RenderCache {
    /// Where each image was last shown, and in which frame.
    pub placed: Vec<Placement>,
    /// Images whose PNG data the terminal already holds.
    pub uploaded: HashSet<u32>,
    /// Escape sequences to write after the frame is drawn.
    pub pending: Vec<u8>,
    /// The number of the current frame.
    pub frame: u64,
}

impl RenderCache {
    /// The frame in which image `kid` was last shown at `area`.
    pub open spec fn placed_at(&self, kid: u32, area: CellArea) -> Option<u64> {
        placed_frame(self.placed@, kid, area)
    }

    /// The cache is consistent: one record per image and area, none from a
    /// later frame than the current one.
    pub open spec fn wf(&self) -> bool {
        &&& placements_unique(self.placed@)
        &&& forall|i: int| 0 <= i < self.placed@.len() ==> #[trigger] self.placed@[i].frame <= self.frame
    }

    /// An empty cache at frame 0.
    pub fn new() -> (c: Self)
        ensures
            c.wf(),
            c.frame == 0,
            c.pending@.len() == 0,
            c.uploaded@ == Set::<u32>::empty(),
            forall|kid: u32, area: CellArea| c.placed_at(kid, area) is None,
    {
        RenderCache { placed: Vec::new(), uploaded: HashSet::new(), pending: Vec::new(), frame: 0 }
    }

    /// Starts a new frame: advances the frame number, drops the queued
    /// sequences and forgets placements older than two frames.
    pub fn begin_frame(&mut self)
        requires
            old(self).wf(),
            old(self).frame < u64::MAX,
        ensures
            final(self).wf(),
            frame_begun(*old(self), *final(self)),
    {
        self.frame = self.frame + 1;
        self.pending.clear();
        let f = self.frame;
        let mut kept: Vec<Placement> = Vec::new();
        let ghost mut origin: Seq<int> = Seq::empty();
        let mut i: usize = 0;
        while i < self.placed.len()
            invariant
                f == self.frame,
                i <= self.placed.len(),
                placements_unique(self.placed@),
                forall|k: int| 0 <= k < self.placed@.len() ==> #[trigger] self.placed@[k].frame <= f,
                kept.len() == origin.len(),
                forall|k: int| 0 <= k < kept.len() ==> 0 <= #[trigger] origin[k] < i,
                forall|k: int| 0 <= k < kept.len() ==> kept[k] == self.placed@[#[trigger] origin[k]],
                forall|k: int, l: int| 0 <= k < l < kept.len() ==> #[trigger] origin[k] < #[trigger] origin[l],
                forall|k: int| 0 <= k < kept.len() ==> f - #[trigger] kept[k].frame <= 2,
                forall|j: int| 0 <= j < i && f - #[trigger] self.placed@[j].frame <= 2 ==> origin.contains(j),
            decreases self.placed.len() - i,
        {
            let p = self.placed[i];
            let ghost prev_origin = origin;
            if f - p.frame <= 2 {
                kept.push(p);
                proof {
                    origin = origin.push(i as int);
                }
            }
            proof {
                assert forall|j: int| 0 <= j < i + 1 && f - #[trigger] self.placed@[j].frame <= 2 implies origin.contains(j) by {
                    if j == i as int {
                        assert(origin[origin.len() - 1] == j);
                    } else {
                        assert(prev_origin.contains(j));
                        let r = choose|r: int| 0 <= r < prev_origin.len() && prev_origin[r] == j;
                        assert(origin[r] == j);
                    }
                }
            }
            i = i + 1;
        }
        let ghost old_placed = self.placed@;
        self.placed = kept;
        proof {
            assert forall|k: int| 0 <= k < self.placed@.len() implies #[trigger] self.placed@[k].frame <= self.frame by {
                assert(self.placed@[k] == old_placed[origin[k]]);
            }
            assert(placements_unique(self.placed@)) by {
                assert forall|a: int, b: int|
                    0 <= a < self.placed@.len() && 0 <= b < self.placed@.len() && a != b implies !(
                    self.placed@[a].kitty_id == self.placed@[b].kitty_id && self.placed@[a].area
                        == self.placed@[b].area) by {
                    if a < b {
                        assert(origin[a] < origin[b]);
                    } else {
                        assert(origin[b] < origin[a]);
                    }
                }
            }
            assert forall|kid: u32, area: CellArea| #[trigger] self.placed_at(kid, area) == match placed_frame(old_placed, kid, area) {
                Some(g) => if self.frame - g <= 2 { Some(g) } else { None },
                None => None,
            } by {
                if exists|j: int| 0 <= j < old_placed.len() && old_placed[j].kitty_id == kid && old_placed[j].area == area {
                    let j = choose|j: int| 0 <= j < old_placed.len() && old_placed[j].kitty_id == kid && old_placed[j].area == area;
                    lemma_placed_at(old_placed, j);
                    if f - old_placed[j].frame <= 2 {
                        let k = choose|k: int| 0 <= k < origin.len() && origin[k] == j;
                        lemma_placed_at(self.placed@, k);
                    } else {
                        if exists|k: int| 0 <= k < self.placed@.len() && self.placed@[k].kitty_id == kid && self.placed@[k].area == area {
                            let k = choose|k: int| 0 <= k < self.placed@.len() && self.placed@[k].kitty_id == kid && self.placed@[k].area == area;
                            assert(origin[k] == j);
                        }
                    }
                } else {
                    if exists|k: int| 0 <= k < self.placed@.len() && self.placed@[k].kitty_id == kid && self.placed@[k].area == area {
                        let k = choose|k: int| 0 <= k < self.placed@.len() && self.placed@[k].kitty_id == kid && self.placed@[k].area == area;
                        assert(old_placed[origin[k]].kitty_id == kid);
                    }
                }
            }
        }
    }

    fn position_of(&self, kid: u32, area: CellArea) -> (r: Option<usize>)
        requires
            placements_unique(self.placed@),
        ensures
            r matches Some(i) ==> i < self.placed@.len() && self.placed@[i as int].kitty_id == kid
                && self.placed@[i as int].area == area,
            r is None ==> self.placed_at(kid, area) is None,
    {
        let mut i: usize = 0;
        while i < self.placed.len()
            invariant
                i <= self.placed.len(),
                forall|j: int| 0 <= j < i ==> !(#[trigger] self.placed@[j].kitty_id == kid && self.placed@[j].area == area),
            decreases self.placed.len() - i,
        {
            let p = self.placed[i];
            if p.kitty_id == kid && p.area == area {
                return Some(i);
            }
            i = i + 1;
        }
        None
    }

    /// Whether image `kid` was already shown at `area` in the current frame
    /// (an image never shown counts as shown in frame 0).
    pub fn already_placed(&self, kid: u32, area: CellArea) -> (r: bool)
        requires
            self.wf(),
        ensures
            r == shown_this_frame(*self, kid, area),
    {
        match self.position_of(kid, area) {
            Some(i) => {
                proof {
                    lemma_placed_at(self.placed@, i as int);
                }
                self.placed[i].frame == self.frame
            },
            None => self.frame == 0,
        }
    }

    /// Whether image `kid` was shown at `area` in the frame before the
    /// current one.
    fn placed_last_frame(&self, kid: u32, area: CellArea) -> (r: bool)
        requires
            self.wf(),
        ensures
            r == shown_last_frame(*self, kid, area),
    {
        match self.position_of(kid, area) {
            Some(i) => {
                proof {
                    lemma_placed_at(self.placed@, i as int);
                }
                self.frame > 0 && self.placed[i].frame == self.frame - 1
            },
            None => false,
        }
    }

    /// Records that image `kid` is shown at `area` in the current frame.
    pub fn mark_placed(&mut self, kid: u32, area: CellArea)
        requires
            old(self).wf(),
        ensures
            final(self).wf(),
            final(self).frame == old(self).frame,
            final(self).pending == old(self).pending,
            final(self).uploaded == old(self).uploaded,
            forall|k: u32, a: CellArea| #[trigger] final(self).placed_at(k, a) == if k == kid && a == area {
                Some(old(self).frame)
            } else {
                old(self).placed_at(k, a)
            },
    {
        let ghost old_placed = self.placed@;
        let entry = Placement { kitty_id: kid, area, frame: self.frame };
        match self.position_of(kid, area) {
            Some(i) => {
                self.placed.set(i, entry);
                proof {
                    assert forall|k: u32, a: CellArea| #[trigger] self.placed_at(k, a) == if k == kid && a == area {
                        Some(self.frame)
                    } else {
                        placed_frame(old_placed, k, a)
                    } by {
                        if k == kid && a == area {
                            lemma_placed_at(self.placed@, i as int);
                        } else {
                            if exists|j: int| 0 <= j < old_placed.len() && old_placed[j].kitty_id == k && old_placed[j].area == a {
                                let j = choose|j: int| 0 <= j < old_placed.len() && old_placed[j].kitty_id == k && old_placed[j].area == a;
                                lemma_placed_at(old_placed, j);
                                lemma_placed_at(self.placed@, j);
                            } else {
                                if exists|j: int| 0 <= j < self.placed@.len() && self.placed@[j].kitty_id == k && self.placed@[j].area == a {
                                    let j = choose|j: int| 0 <= j < self.placed@.len() && self.placed@[j].kitty_id == k && self.placed@[j].area == a;
                                    assert(old_placed[j] == self.placed@[j]);
                                }
                            }
                        }
                    }
                }
            },
            None => {
                self.placed.push(entry);
                proof {
                    assert forall|k: u32, a: CellArea| #[trigger] self.placed_at(k, a) == if k == kid && a == area {
                        Some(self.frame)
                    } else {
                        placed_frame(old_placed, k, a)
                    } by {
                        if k == kid && a == area {
                            lemma_placed_at(self.placed@, old_placed.len() as int);
                        } else {
                            if exists|j: int| 0 <= j < old_placed.len() && old_placed[j].kitty_id == k && old_placed[j].area == a {
                                let j = choose|j: int| 0 <= j < old_placed.len() && old_placed[j].kitty_id == k && old_placed[j].area == a;
                                lemma_placed_at(old_placed, j);
                                lemma_placed_at(self.placed@, j);
                            } else {
                                if exists|j: int| 0 <= j < self.placed@.len() && self.placed@[j].kitty_id == k && self.placed@[j].area == a {
                                    let j = choose|j: int| 0 <= j < self.placed@.len() && self.placed@[j].kitty_id == k && self.placed@[j].area == a;
                                    assert(old_placed[j] == self.placed@[j]);
                                }
                            }
                        }
                    }
                }
            },
        }
    }
}

} // verus!

verus! {

/// The ASCII bytes of `decimal(n)`.
pub open spec fn decimal_bytes(n: nat) -> Seq<u8> {
    decimal(n).map_values(|c: char| c as u8)
}

/// Appends the decimal digits of `n` as ASCII bytes.
fn push_decimal_bytes(v: &mut Vec<u8>, n: u64)
    ensures
        final(v)@ == old(v)@ + decimal_bytes(n as nat),
    decreases n,
{
    if n < 10 {
        v.push(48u8 + n as u8);
        assert(decimal_bytes(n as nat) =~= seq![(48 + n) as u8]);
    } else {
        push_decimal_bytes(v, n / 10);
        v.push(48u8 + (n % 10) as u8);
        assert(decimal(n as nat) == decimal((n / 10) as nat).push(crate::text::digit_char((n % 10) as nat)));
        assert(decimal_bytes(n as nat) =~= decimal_bytes((n / 10) as nat).push((48 + n % 10) as u8));
    }
}

/// Appends the UTF-8 bytes of `s`.
fn push_text(v: &mut Vec<u8>, s: &str)
    ensures
        final(v)@ == old(v)@ + encode_utf8(s@),
{
    let b = s.as_bytes();
    let mut i: usize = 0;
    while i < b.len()
        invariant
            b@ == encode_utf8(s@),
            i <= b.len(),
            v@ == old(v)@ + b@.take(i as int),
        decreases b.len() - i,
    {
        v.push(b[i]);
        assert(b@.take(i + 1) =~= b@.take(i as int).push(b@[i as int]));
        i = i + 1;
    }
    assert(b@.take(i as int) =~= b@);
}

/// The sequence that moves the terminal cursor to the top-left cell of `area`.
pub open spec fn cursor_to(area: CellArea) -> Seq<u8> {
    encode_utf8("\x1b["@) + decimal_bytes((area.y + 1) as nat) + encode_utf8(";"@) + decimal_bytes((area.x + 1) as nat)
        + encode_utf8("H"@)
}

/// How many bytes of image data one Kitty escape sequence carries.
pub const KITTY_CHUNK: usize = 4096;

/// The Kitty sequences that transmit and show image `id` over `area`: the
/// data cut into chunks of `KITTY_CHUNK` bytes, the first with the full
/// header, each marked `m=1` except the last.
pub open spec fn kitty_chunks(id: u32, area: CellArea, data: Seq<u8>, first: bool) -> Seq<u8>
    decreases data.len(),
{
    if data.len() == 0 {
        Seq::empty()
    } else {
        let n: int = if data.len() < KITTY_CHUNK { data.len() as int } else { KITTY_CHUNK as int };
        let rest = data.skip(n);
        let more: nat = if rest.len() == 0 { 0 } else { 1 };
        kitty_header(id, area, more, first) + data.take(n) + encode_utf8("\x1b\\"@) + kitty_chunks(
            id,
            area,
            rest,
            false,
        )
    }
}

/// The header of one Kitty transmission chunk: the full header (transmit and
/// show, PNG, quiet) on the first chunk, only the continuation flag after.
pub open spec fn kitty_header(id: u32, area: CellArea, more: nat, first: bool) -> Seq<u8> {
    if first {
        encode_utf8("\x1b_Ga=T,f=100,i="@) + decimal_bytes(id as nat) + encode_utf8(",c="@)
            + decimal_bytes(area.width as nat) + encode_utf8(",r="@) + decimal_bytes(
            area.height as nat,
        ) + encode_utf8(",q=2,m="@) + decimal_bytes(more) + encode_utf8(";"@)
    } else {
        encode_utf8("\x1b_Gm="@) + decimal_bytes(more) + encode_utf8(";"@)
    }
}

proof fn lemma_kitty_step(id: u32, area: CellArea, data: Seq<u8>, first: bool, n: int, prefix: Seq<u8>)
    requires
        data.len() > 0,
        n == if data.len() < KITTY_CHUNK { data.len() as int } else { KITTY_CHUNK as int },
    ensures
        prefix + kitty_header(id, area, if data.skip(n).len() == 0 { 0nat } else { 1nat }, first) + data.take(n)
            + encode_utf8("\x1b\\"@) + kitty_chunks(id, area, data.skip(n), false) == prefix
            + kitty_chunks(id, area, data, first),
{
    let more: nat = if data.skip(n).len() == 0 { 0nat } else { 1nat };
    let h = kitty_header(id, area, more, first);
    let e = encode_utf8("\x1b\\"@);
    let k = kitty_chunks(id, area, data.skip(n), false);
    assert(kitty_chunks(id, area, data, first) == h + data.take(n) + e + k);
    assert(prefix + h + data.take(n) + e + k =~= prefix + (h + data.take(n) + e + k));
}

/// The Kitty sequence that shows the already transmitted image `id` over
/// `area`.
pub open spec fn kitty_place(id: u32, area: CellArea) -> Seq<u8> {
    encode_utf8("\x1b_Ga=p,i="@) + decimal_bytes(id as nat) + encode_utf8(",c="@) + decimal_bytes(
        area.width as nat,
    ) + encode_utf8(",r="@) + decimal_bytes(area.height as nat) + encode_utf8(",q=2;\x1b\\"@)
}

/// The iTerm2 sequence that shows the image whose Base64 text is `b64` over
/// `area`, sized in pixels as 8 per column and 16 per row.
pub open spec fn iterm2_inline(area: CellArea, b64: Seq<char>) -> Seq<u8> {
    cursor_to(area) + encode_utf8("\x1b]1337;File=inline=1;width="@) + decimal_bytes(
        (area.width * 8) as nat,
    ) + encode_utf8("px;height="@) + decimal_bytes((area.height * 16) as nat) + encode_utf8(
        "px;preserveAspectRatio=1;doNotMoveCursor=0:"@,
    ) + encode_utf8(b64) + encode_utf8("\x07"@)
}

/// Whether the cache counts image `kid` as shown at `area` in its current
/// frame (an image never shown counts as shown in frame 0).
pub open spec fn shown_this_frame(c: RenderCache, kid: u32, area: CellArea) -> bool {
    let f: u64 = match c.placed_at(kid, area) {
        Some(f) => f,
        None => 0,
    };
    f == c.frame
}

/// Whether the cache holds image `kid` as shown at `area` in the frame
/// before its current one.
pub open spec fn shown_last_frame(c: RenderCache, kid: u32, area: CellArea) -> bool {
    c.frame > 0 && c.placed_at(kid, area) == Some((c.frame - 1) as u64)
}

/// `c1` is `c0` after starting a new frame: the frame number advances, the
/// queued sequences are dropped, the uploaded images are kept, and of the
/// placements only those at most two frames old remain.
pub open spec fn frame_begun(c0: RenderCache, c1: RenderCache) -> bool {
    &&& c1.frame == c0.frame + 1
    &&& c1.pending@.len() == 0
    &&& c1.uploaded@ == c0.uploaded@
    &&& forall|kid: u32, area: CellArea| #[trigger] c1.placed_at(kid, area) == match c0.placed_at(kid, area) {
        Some(f) => if c1.frame - f <= 2 { Some(f) } else { None },
        None => None,
    }
}

/// Decoded image pixels (`image::DynamicImage`), carried through unread.
#[verifier::external_type_specification]
#[verifier::external_body]
pub struct ExDynamicImage(image::DynamicImage);

/// The PNG file that `image` produces for the image file `raw`: the bytes
/// decoded with `image::load_from_memory` (which guesses the format) and
/// written back with `DynamicImage::write_to` in `ImageFormat::Png`; `None`
/// when either step fails. Both steps are deterministic in their input.
pub uninterp spec fn png_reencoding(raw: Seq<u8>) -> Option<Seq<u8>>;

/// Decodes an image file held in memory and re-encodes it as PNG
/// (`image::load_from_memory`, then `DynamicImage::write_to` with
/// `ImageFormat::Png`). The claim: the result is present exactly when
/// `png_reencoding` of the bytes is, and its PNG bytes are those. Nothing is
/// stated of the decoded pixels, which the library only carries.
#[verifier::external_body]
fn reencode_png(raw: &[u8]) -> (r: Option<(image::DynamicImage, Vec<u8>)>)
    ensures
        r is Some <==> png_reencoding(raw@) is Some,
        r matches Some(p) ==> p.1@ == png_reencoding(raw@)->0,
{
    let decoded = image::load_from_memory(raw).ok()?;
    let mut png: Vec<u8> = Vec::new();
    decoded.write_to(&mut std::io::Cursor::new(&mut png), image::ImageFormat::Png).ok()?;
    Some((decoded, png))
}

/// A decoded cover with the encodings the protocols need.
#[derive(Debug)]
pub struct CoverImage {
    /// The image re-encoded as PNG, in Base64 (Kitty).
    pub png_b64: String,
    /// The fetched bytes as they came, in Base64 (iTerm2).
    pub raw_b64: String,
    /// The pixels (half-block rendering).
    pub decoded: image::DynamicImage,
    /// The id under which Kitty stores the image.
    pub kitty_id: u32,
}

/// Kitty image ids are kept to 24 bits.
pub open spec fn kitty_id_of(sequence: u32) -> u32 {
    (sequence as nat % 0x100_0000) as u32
}

/// `c1` is `c0` with image `kid` recorded as shown at `area` in the current
/// frame, every other record as it was.
pub open spec fn placement_recorded(c0: RenderCache, c1: RenderCache, kid: u32, area: CellArea) -> bool {
    forall|k: u32, a: CellArea| #[trigger] c1.placed_at(k, a) == if k == kid && a == area {
        Some(c0.frame)
    } else {
        c0.placed_at(k, a)
    }
}

/// `c1` is `c0` after queueing the Kitty sequences that show `img` over
/// `area`: nothing when it is already shown there this frame; when it was
/// shown at the same place in the frame before, the placement is carried
/// into this frame and nothing is sent, since the terminal still shows it;
/// otherwise the placement is recorded, the image counts as uploaded, and
/// the cursor move is queued with either the full chunked transmission
/// (first time) or a re-placement by id.
pub open spec fn kitty_queued(c0: RenderCache, c1: RenderCache, img: CoverImage, area: CellArea) -> bool {
    &&& c1.frame == c0.frame
    &&& shown_this_frame(c0, img.kitty_id, area) ==> c1.placed@ == c0.placed@ && c1.uploaded@ == c0.uploaded@
        && c1.pending@ == c0.pending@
    &&& !shown_this_frame(c0, img.kitty_id, area) && shown_last_frame(c0, img.kitty_id, area) ==> {
        &&& placement_recorded(c0, c1, img.kitty_id, area)
        &&& c1.uploaded@ == c0.uploaded@
        &&& c1.pending@ == c0.pending@
    }
    &&& !shown_this_frame(c0, img.kitty_id, area) && !shown_last_frame(c0, img.kitty_id, area) ==> {
        &&& placement_recorded(c0, c1, img.kitty_id, area)
        &&& c1.uploaded@ == c0.uploaded@.insert(img.kitty_id)
        &&& c1.pending@ == c0.pending@ + cursor_to(area) + if c0.uploaded@.contains(img.kitty_id) {
            kitty_place(img.kitty_id, area)
        } else {
            kitty_chunks(img.kitty_id, area, encode_utf8(img.png_b64@), true)
        }
    }
}

/// `c1` is `c0` after queueing the iTerm2 inline image of `img` over
/// `area`: nothing when it is already shown there this frame; otherwise the
/// placement is recorded and the sequence queued.
pub open spec fn iterm2_queued(c0: RenderCache, c1: RenderCache, img: CoverImage, area: CellArea) -> bool {
    &&& c1.frame == c0.frame
    &&& c1.uploaded@ == c0.uploaded@
    &&& shown_this_frame(c0, img.kitty_id, area) ==> c1.placed@ == c0.placed@ && c1.pending@ == c0.pending@
    &&& !shown_this_frame(c0, img.kitty_id, area) ==> {
        &&& forall|k: u32, a: CellArea| #[trigger] c1.placed_at(k, a) == if k == img.kitty_id && a == area {
            Some(c0.frame)
        } else {
            c0.placed_at(k, a)
        }
        &&& c1.pending@ == c0.pending@ + iterm2_inline(area, img.raw_b64@)
    }
}

impl CoverImage {
    /// Builds a cover from the fetched bytes, their PNG re-encoding and the
    /// decoded pixels; `sequence` is a process-wide counter value from which
    /// the Kitty id is taken.
    pub fn from_parts(raw: &[u8], png: &[u8], decoded: image::DynamicImage, sequence: u32) -> (c: CoverImage)
        ensures
            c.png_b64@ == base64(png@),
            c.raw_b64@ == base64(raw@),
            c.decoded == decoded,
            c.kitty_id == kitty_id_of(sequence),
    {
        let kitty_id = sequence & 0x00FF_FFFF;
        assert(sequence & 0x00FF_FFFF == sequence % 0x100_0000) by (bit_vector);
        CoverImage { png_b64: b64(png), raw_b64: b64(raw), decoded, kitty_id }
    }

    /// Decodes fetched image bytes into a cover. Succeeds exactly when the
    /// bytes decode as an image and the decoded image encodes as PNG; the
    /// Kitty text is then that PNG in Base64, the iTerm2 text the fetched
    /// bytes in Base64.
    pub fn from_bytes(raw: Vec<u8>, sequence: u32) -> (c: Option<CoverImage>)
        ensures
            c is Some <==> png_reencoding(raw@) is Some,
            c matches Some(img) ==> {
                &&& img.png_b64@ == base64(png_reencoding(raw@)->0)
                &&& img.raw_b64@ == base64(raw@)
                &&& img.kitty_id == kitty_id_of(sequence)
            },
    {
        let (decoded, png) = reencode_png(raw.as_slice())?;
        Some(CoverImage::from_parts(raw.as_slice(), png.as_slice(), decoded, sequence))
    }

    /// Queues the Kitty sequences that show this cover over `area`, unless it
    /// is already shown there in this frame or was shown at the same place in
    /// the frame before (then the placement only moves on to this frame): the
    /// cursor move, then either the full transmission (first time this image
    /// is shown) or a short re-placement by id.
    pub fn queue_kitty(&self, area: CellArea, cache: &mut RenderCache)
        requires
            old(cache).wf(),
            area.x < u16::MAX,
            area.y < u16::MAX,
        ensures
            final(cache).wf(),
            kitty_queued(*old(cache), *final(cache), *self, area),
    {
        if cache.already_placed(self.kitty_id, area) {
            return;
        }
        let unchanged = cache.placed_last_frame(self.kitty_id, area);
        cache.mark_placed(self.kitty_id, area);
        if unchanged {
            return;
        }
        let ghost marked = *cache;
        push_cursor(&mut cache.pending, area);
        if !cache.uploaded.contains(&self.kitty_id) {
            cache.uploaded.insert(self.kitty_id);
            push_kitty_chunks(&mut cache.pending, self.kitty_id, area, self.png_b64.as_str());
        } else {
            push_kitty_place(&mut cache.pending, self.kitty_id, area);
            assert(cache.uploaded@ =~= old(cache).uploaded@.insert(self.kitty_id));
        }
        assert(cache.placed == marked.placed);
        assert(forall|k: u32, a: CellArea| #[trigger] cache.placed_at(k, a) == marked.placed_at(k, a));
    }

    /// Queues the iTerm2 inline-image sequence that shows this cover over
    /// `area`, unless it is already shown there in this frame.
    pub fn queue_iterm2(&self, area: CellArea, cache: &mut RenderCache)
        requires
            old(cache).wf(),
            area.x < u16::MAX,
            area.y < u16::MAX,
            area.width * 8 <= u16::MAX,
            area.height * 16 <= u16::MAX,
        ensures
            final(cache).wf(),
            iterm2_queued(*old(cache), *final(cache), *self, area),
    {
        if cache.already_placed(self.kitty_id, area) {
            return;
        }
        cache.mark_placed(self.kitty_id, area);
        let ghost marked = *cache;
        push_iterm2(&mut cache.pending, area, self.raw_b64.as_str());
        assert(cache.placed == marked.placed);
        assert(forall|k: u32, a: CellArea| #[trigger] cache.placed_at(k, a) == marked.placed_at(k, a));
        assert(cache.pending@ == old(cache).pending@ + iterm2_inline(area, self.raw_b64@));
    }

    /// Shows this cover over `area` with the given protocol: Kitty and
    /// iTerm2 queue their escape sequences; half blocks are drawn by the
    /// caller, which the result asks for.
    pub fn render(&self, area: CellArea, protocol: ImageProtocol, cache: &mut RenderCache) -> (draw_half_blocks: bool)
        requires
            old(cache).wf(),
            area.x < u16::MAX,
            area.y < u16::MAX,
            protocol == ImageProtocol::ITerm2 ==> area.width * 8 <= u16::MAX && area.height * 16 <= u16::MAX,
        ensures
            final(cache).wf(),
            draw_half_blocks == (protocol == ImageProtocol::HalfBlock),
            protocol == ImageProtocol::Kitty ==> kitty_queued(*old(cache), *final(cache), *self, area),
            protocol == ImageProtocol::ITerm2 ==> iterm2_queued(*old(cache), *final(cache), *self, area),
            protocol == ImageProtocol::HalfBlock ==> *final(cache) == *old(cache),
    {
        match protocol {
            ImageProtocol::Kitty => {
                self.queue_kitty(area, cache);
                false
            },
            ImageProtocol::ITerm2 => {
                self.queue_iterm2(area, cache);
                false
            },
            ImageProtocol::HalfBlock => true,
        }
    }
}

/// Whether a placeholder cell is drawn in the lighter shade: the shades
/// alternate like a checkerboard.
pub fn placeholder_light(row: u16, col: u16) -> (r: bool)
    requires
        row + col <= u16::MAX,
    ensures
        r == ((row + col) % 2 == 0),
{
    (row + col) % 2 == 0
}

fn push_cursor(v: &mut Vec<u8>, area: CellArea)
    requires
        area.x < u16::MAX,
        area.y < u16::MAX,
    ensures
        final(v)@ == old(v)@ + cursor_to(area),
{
    push_text(v, "\x1b[");
    push_decimal_bytes(v, (area.y + 1) as u64);
    push_text(v, ";");
    push_decimal_bytes(v, (area.x + 1) as u64);
    push_text(v, "H");
    assert(v@ =~= old(v)@ + cursor_to(area));
}

fn push_kitty_place(v: &mut Vec<u8>, id: u32, area: CellArea)
    ensures
        final(v)@ == old(v)@ + kitty_place(id, area),
{
    push_text(v, "\x1b_Ga=p,i=");
    push_decimal_bytes(v, id as u64);
    push_text(v, ",c=");
    push_decimal_bytes(v, area.width as u64);
    push_text(v, ",r=");
    push_decimal_bytes(v, area.height as u64);
    push_text(v, ",q=2;\x1b\\");
    assert(v@ =~= old(v)@ + kitty_place(id, area));
}

fn push_kitty_header(v: &mut Vec<u8>, id: u32, area: CellArea, more: u64, first: bool)
    requires
        more <= 1,
    ensures
        final(v)@ == old(v)@ + kitty_header(id, area, more as nat, first),
{
    if first {
        push_text(v, "\x1b_Ga=T,f=100,i=");
        push_decimal_bytes(v, id as u64);
        push_text(v, ",c=");
        push_decimal_bytes(v, area.width as u64);
        push_text(v, ",r=");
        push_decimal_bytes(v, area.height as u64);
        push_text(v, ",q=2,m=");
        push_decimal_bytes(v, more);
        push_text(v, ";");
    } else {
        push_text(v, "\x1b_Gm=");
        push_decimal_bytes(v, more);
        push_text(v, ";");
    }
    assert(v@ =~= old(v)@ + kitty_header(id, area, more as nat, first));
}

#[verifier::spinoff_prover]
fn push_kitty_chunks(v: &mut Vec<u8>, id: u32, area: CellArea, b64: &str)
    ensures
        final(v)@ == old(v)@ + kitty_chunks(id, area, encode_utf8(b64@), true),
{
    let data = b64.as_bytes();
    let len = data.len();
    let mut offset: usize = 0;
    assert(data@.skip(0) =~= data@);
    assert(v@ + kitty_chunks(id, area, data@, true) =~= old(v)@ + kitty_chunks(id, area, data@, true));
    while offset < len
        invariant
            len == data@.len(),
            data@ == encode_utf8(b64@),
            offset <= len,
            v@ + kitty_chunks(id, area, data@.skip(offset as int), offset == 0) == old(v)@
                + kitty_chunks(id, area, data@, true),
        decreases len - offset,
    {
        let ghost before = v@;
        let ghost tail = data@.skip(offset as int);
        let n = if len - offset < KITTY_CHUNK { len - offset } else { KITTY_CHUNK };
        let more: u64 = if offset + n < len { 1 } else { 0 };
        assert(tail.skip(n as int) =~= data@.skip(offset + n));
        push_kitty_header(v, id, area, more, offset == 0);
        let ghost after_header = v@;
        let mut k: usize = 0;
        while k < n
            invariant
                offset + n <= len,
                len == data@.len(),
                k <= n,
                v@ == after_header + data@.subrange(offset as int, offset + k),
            decreases n - k,
        {
            v.push(data[offset + k]);
            assert(data@.subrange(offset as int, offset + k + 1) =~= data@.subrange(
                offset as int,
                offset + k,
            ).push(data@[offset + k]));
            k = k + 1;
        }
        assert(data@.subrange(offset as int, offset + n) =~= tail.take(n as int));
        push_text(v, "\x1b\\");
        proof {
            lemma_kitty_step(id, area, tail, offset == 0, n as int, before);
            assert(v@ == before + kitty_header(id, area, more as nat, offset == 0) + tail.take(n as int) + encode_utf8("\x1b\\"@));
        }
        offset = offset + n;
    }
    assert(data@.skip(len as int) =~= Seq::<u8>::empty());
    assert(v@ =~= old(v)@ + kitty_chunks(id, area, data@, true));
}

fn push_iterm2(v: &mut Vec<u8>, area: CellArea, b64: &str)
    requires
        area.x < u16::MAX,
        area.y < u16::MAX,
        area.width * 8 <= u16::MAX,
        area.height * 16 <= u16::MAX,
    ensures
        final(v)@ == old(v)@ + iterm2_inline(area, b64@),
{
    push_cursor(v, area);
    push_text(v, "\x1b]1337;File=inline=1;width=");
    push_decimal_bytes(v, (area.width * 8) as u64);
    push_text(v, "px;height=");
    push_decimal_bytes(v, (area.height * 16) as u64);
    push_text(v, "px;preserveAspectRatio=1;doNotMoveCursor=0:");
    push_text(v, b64);
    push_text(v, "\x07");
    assert(v@ =~= old(v)@ + iterm2_inline(area, b64@));
}

} // verus!
