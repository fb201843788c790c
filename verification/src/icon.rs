use vstd::prelude::*;

use crate::trayiconbuilder::Error;

verus! {

/// Ghost mirror of [`KdeIcon`]: the decoded pixel payload of an icon.
pub struct KdeIconView {
    pub width: u32,
    pub height: u32,
    pub argb_pixels: Option<Seq<u8>>,
}

impl KdeIconView {
    /// A decoded icon carries exactly 4 bytes (one ARGB quadruple) per pixel.
    pub open spec fn wf(self) -> bool {
        match self.argb_pixels {
            Some(p) => p.len() == 4 * (self.width as int) * (self.height as int),
            None => true,
        }
    }
}

/// The platform-side icon payload: dimensions plus pixels in the wire's
/// alpha-first channel order. Conversion from the decoder's RGBA order
/// happens once, here, not per host query.
#[derive(Debug)]
pub struct KdeIcon {
    pub width: u32,
    pub height: u32,
    pub argb_pixels: Option<Vec<u8>>,
}

impl View for KdeIcon {
    type V = KdeIconView;

    open spec fn view(&self) -> KdeIconView {
        KdeIconView {
            width: self.width,
            height: self.height,
            argb_pixels: match self.argb_pixels {
                Some(p) => Some(p@),
                None => None,
            },
        }
    }
}

/// Ghost mirror of [`Icon`].
pub struct IconView {
    pub buffer: Option<Seq<u8>>,
    pub sys: KdeIconView,
}

/// An application icon: the raw source buffer it was loaded from, plus the
/// decoded platform payload.
#[derive(Debug)]
pub struct Icon {
    pub buffer: Option<&'static [u8]>,
    pub sys: KdeIcon,
}

impl View for Icon {
    type V = IconView;

    open spec fn view(&self) -> IconView {
        IconView {
            buffer: match self.buffer {
                Some(b) => Some(b@),
                None => None,
            },
            sys: self.sys@,
        }
    }
}

/// Byte-wise equality of two slices.
fn bytes_eq(a: &[u8], b: &[u8]) -> (r: bool)
    ensures
        r == (a@ == b@),
{
    if a.len() != b.len() {
        return false;
    }
    let n = a.len();
    let mut i: usize = 0;
    while i < n
        invariant
            n == a@.len() == b@.len(),
            i <= n,
            forall|k: int| 0 <= k < i ==> a@[k] == b@[k],
        decreases n - i,
    {
        if a[i] != b[i] {
            return false;
        }
        i += 1;
    }
    proof {
        assert(a@ =~= b@);
    }
    true
}

/// Copy a byte vector.
pub(crate) fn clone_bytes(v: &Vec<u8>) -> (r: Vec<u8>)
    ensures
        r@ == v@,
{
    let r = v.clone();
    proof {
        assert(r@ =~= v@);
    }
    r
}

impl Clone for KdeIcon {
    /// Cloning keeps the contents.
    fn clone(&self) -> (r: KdeIcon)
        ensures
            r@ == self@,
    {
        KdeIcon {
            width: self.width,
            height: self.height,
            argb_pixels: match &self.argb_pixels {
                Some(p) => Some(clone_bytes(p)),
                None => None,
            },
        }
    }
}

impl Clone for Icon {
    /// Cloning keeps the contents.
    fn clone(&self) -> (r: Icon)
        ensures
            r@ == self@,
    {
        Icon { buffer: self.buffer, sys: self.sys.clone() }
    }
}

/// Two icons are equal when they were loaded from the same source buffer.
impl PartialEq for Icon {
    fn eq(&self, other: &Icon) -> (r: bool) {
        match (self.buffer, other.buffer) {
            (Some(a), Some(b)) => bytes_eq(a, b),
            (None, None) => true,
            _ => false,
        }
    }
}

impl vstd::std_specs::cmp::PartialEqSpecImpl for Icon {
    open spec fn obeys_eq_spec() -> bool {
        true
    }

    open spec fn eq_spec(&self, other: &Icon) -> bool {
        self@.buffer == other@.buffer
    }
}

/// The wire expects alpha-first quadruples: each RGBA quadruple of the
/// decoder becomes an ARGB quadruple; a trailing fragment shorter than one
/// quadruple is dropped.
pub open spec fn argb_of(s: Seq<u8>) -> Seq<u8>
    decreases s.len(),
{
    if s.len() < 4 {
        Seq::empty()
    } else {
        seq![s[3], s[0], s[1], s[2]] + argb_of(s.skip(4))
    }
}

pub proof fn lemma_argb_of_len(s: Seq<u8>)
    requires
        s.len() % 4 == 0,
    ensures
        argb_of(s).len() == s.len(),
    decreases s.len(),
{
    if s.len() >= 4 {
        lemma_argb_of_len(s.skip(4));
    }
}

/// Reorder RGBA pixel bytes into the wire's ARGB order.
pub fn rgba_to_argb(rgba: &Vec<u8>) -> (r: Vec<u8>)
    ensures
        r@ == argb_of(rgba@),
{
    let mut out: Vec<u8> = Vec::new();
    let n = rgba.len();
    let mut i: usize = 0;
    proof {
        assert(rgba@.skip(0) =~= rgba@);
        assert(out@ + argb_of(rgba@) =~= argb_of(rgba@));
    }
    while n - i >= 4
        invariant
            n == rgba@.len(),
            i <= n,
            i % 4 == 0,
            argb_of(rgba@) == out@ + argb_of(rgba@.skip(i as int)),
            out@.len() == i,
        decreases n - i,
    {
        let ghost pre = out@;
        out.push(rgba[i + 3]);
        out.push(rgba[i]);
        out.push(rgba[i + 1]);
        out.push(rgba[i + 2]);
        proof {
            let s = rgba@.skip(i as int);
            assert(s.len() >= 4);
            assert(s[3] == rgba@[i + 3] && s[0] == rgba@[i as int] && s[1] == rgba@[i + 1]
                && s[2] == rgba@[i + 2]);
            assert(s.skip(4) =~= rgba@.skip(i + 4));
            assert(out@ =~= pre + seq![s[3], s[0], s[1], s[2]]);
        }
        i += 4;
    }
    proof {
        assert(rgba@.skip(i as int).len() < 4);
        assert(argb_of(rgba@) =~= out@);
    }
    out
}

/// The advertised dimensions of each directory entry of an ICO buffer, in
/// directory order, or nothing when the buffer does not parse as an ICO
/// directory. The parse depends on the bytes alone.
pub uninterp spec fn ico_entry_dims(buf: Seq<u8>) -> Option<Seq<(u32, u32)>>;

/// The raw encoded image bytes of entry `i`; nothing when the buffer does
/// not parse or `i` is out of range.
pub uninterp spec fn ico_entry_data(buf: Seq<u8>, i: int) -> Option<Seq<u8>>;

/// The decode of entry `i`: its true dimensions and its RGBA bytes;
/// nothing when the entry cannot be decoded.
pub uninterp spec fn ico_decoded(buf: Seq<u8>, i: int) -> Option<(u32, u32, Seq<u8>)>;

/// Relies on `ico::IconDir::read` and `ico::IconDir::entries`: whether the
/// buffer parses as an ICO directory, and how many entries it holds.
#[verifier::external_body]
fn entry_count(buffer: &[u8]) -> (r: Option<usize>)
    ensures
        r matches Some(n) ==> (ico_entry_dims(buffer@) matches Some(es) && es.len() == n),
        r is None ==> ico_entry_dims(buffer@) is None,
{
    match ico::IconDir::read(std::io::Cursor::new(buffer)) {
        Ok(dir) => Some(dir.entries().len()),
        Err(_) => None,
    }
}

/// Relies on `ico::IconDir::read`, `ico::IconDir::entries` and
/// `ico::IconDirEntry::{width, height}`: the advertised dimensions of the
/// entry at `index`.
#[verifier::external_body]
fn entry_dims(buffer: &[u8], index: usize) -> (r: Option<(u32, u32)>)
    ensures
        ({
            match ico_entry_dims(buffer@) {
                Some(es) => if (index as int) < es.len() {
                    r == Some(es[index as int])
                } else {
                    r is None
                },
                None => r is None,
            }
        }),
{
    match ico::IconDir::read(std::io::Cursor::new(buffer)) {
        Ok(dir) => match dir.entries().get(index) {
            Some(e) => Some((e.width(), e.height())),
            None => None,
        },
        Err(_) => None,
    }
}

/// Relies on `ico::IconDir::read`, `ico::IconDir::entries` and
/// `ico::IconDirEntry::data`: the raw encoded image bytes of the entry at
/// `index`, copied out.
#[verifier::external_body]
fn entry_data(buffer: &[u8], index: usize) -> (r: Option<Vec<u8>>)
    ensures
        ({
            match ico_entry_data(buffer@, index as int) {
                Some(d) => r matches Some(v) && v@ == d,
                None => r is None,
            }
        }),
{
    match ico::IconDir::read(std::io::Cursor::new(buffer)) {
        Ok(dir) => match dir.entries().get(index) {
            Some(e) => Some(e.data().to_vec()),
            None => None,
        },
        Err(_) => None,
    }
}

/// Stored dimensions that keep the BMP decoder's `u32` row arithmetic (the
/// stored width times the color depth, and four times the stored height
/// times the width) far below its limits.
pub open spec fn sane_dims(d: (u32, u32)) -> bool {
    d.0 <= 0x2000 && d.1 <= 0x2000
}

/// The little-endian 32-bit unsigned value at offset `off`.
pub open spec fn le_u32(d: Seq<u8>, off: int) -> int {
    d[off] + 0x100 * d[off + 1] + 0x10000 * d[off + 2] + 0x1000000 * d[off + 3]
}

/// The little-endian 32-bit signed value at offset `off`.
pub open spec fn le_i32_val(d: Seq<u8>, off: int) -> int {
    if le_u32(d, off) >= 0x8000_0000 {
        le_u32(d, off) - 0x1_0000_0000
    } else {
        le_u32(d, off)
    }
}

/// Does the entry data start with the PNG signature the directory code
/// checks for?
pub open spec fn is_png_data(d: Seq<u8>) -> bool {
    d.len() >= 4 && d[0] == 0x89 && d[1] == 0x50 && d[2] == 0x4e && d[3] == 0x47
}

/// The dimensions a BMP-encoded entry records in its header, validated as
/// the decoder validates them: a 40-byte header size, a positive width,
/// and a positive doubled height; anything else makes the decoder report
/// an error before it touches pixel data.
pub open spec fn bmp_stored_dims(d: Seq<u8>) -> Option<(u32, u32)> {
    if d.len() < 12 {
        None
    } else if le_u32(d, 0) != 40 {
        None
    } else {
        let w = le_i32_val(d, 4);
        let h = le_i32_val(d, 8);
        if w < 1 {
            None
        } else if h % 2 != 0 {
            None
        } else if h < 2 {
            None
        } else {
            Some((w as u32, (h / 2) as u32))
        }
    }
}

/// Entry data the decoder can be handed without risking an arithmetic
/// panic: a PNG (its decoder reports errors), a BMP whose header the
/// decoder will reject, or a BMP with sane stored dimensions.
pub open spec fn decode_safe(d: Seq<u8>) -> bool {
    is_png_data(d) || (match bmp_stored_dims(d) {
        Some(sd) => sane_dims(sd),
        None => true,
    })
}

/// Read the little-endian 32-bit value at `off`.
fn read_le_u32(d: &Vec<u8>, off: usize) -> (r: u32)
    requires
        off + 4 <= d@.len(),
    ensures
        r == le_u32(d@, off as int),
{
    let n = d.len();
    proof {
        assert(off + 4 <= n);
    }
    let b0 = d[off] as u32;
    let b1 = d[off + 1] as u32;
    let b2 = d[off + 2] as u32;
    let b3 = d[off + 3] as u32;
    proof {
        assert(b0 <= 0xff && b1 <= 0xff && b2 <= 0xff && b3 <= 0xff);
        assert(b0 + 0x100 * b1 + 0x1_0000 * b2 + 0x100_0000 * b3 <= 0xffff_ffff);
    }
    b0 + 0x100 * b1 + 0x1_0000 * b2 + 0x100_0000 * b3
}

/// Decide `decode_safe` for one entry's raw data.
fn entry_decode_safe(data: &Vec<u8>) -> (r: bool)
    ensures
        r == decode_safe(data@),
{
    if data.len() >= 4 && data[0] == 0x89 && data[1] == 0x50 && data[2] == 0x4e && data[3] == 0x47 {
        return true;
    }
    if data.len() < 12 {
        return true;
    }
    if read_le_u32(data, 0) != 40 {
        return true;
    }
    let wu = read_le_u32(data, 4);
    if wu == 0 || wu >= 0x8000_0000 {
        return true;
    }
    let hu = read_le_u32(data, 8);
    proof {
        if hu >= 0x8000_0000 {
            assert(le_i32_val(data@, 8) == hu - 0x1_0000_0000);
            assert((hu - 0x1_0000_0000) % 2 == hu % 2);
        }
    }
    if hu % 2 != 0 {
        return true;
    }
    if hu < 2 || hu >= 0x8000_0000 {
        return true;
    }
    wu <= 0x2000 && hu / 2 <= 0x2000
}

/// Relies on `ico::IconDirEntry::decode` and `ico::IconImage::{width,
/// height, rgba_data}`: a decoded image always carries exactly
/// `4 * width * height` RGBA bytes (the `ico` crate constructs every
/// `IconImage` through checks that enforce this). The `requires` keeps out
/// entries whose BMP header stores oversized dimensions: on those the
/// decoder's `u32` row arithmetic (stored width times color depth, four
/// times stored height times width) could overflow and panic; a PNG entry
/// or a BMP header the decoder rejects cannot reach that arithmetic.
#[verifier::external_body]
fn decode_entry(buffer: &[u8], index: usize) -> (r: Option<(u32, u32, Vec<u8>)>)
    requires
        ico_entry_data(buffer@, index as int) matches Some(d) && decode_safe(d),
    ensures
        ({
            match ico_decoded(buffer@, index as int) {
                Some(t) => r matches Some(d) && d.0 == t.0 && d.1 == t.1 && d.2@ == t.2,
                None => r is None,
            }
        }),
        r matches Some(d) ==> d.2@.len() == 4 * (d.0 as int) * (d.1 as int),
{
    let dir = ico::IconDir::read(std::io::Cursor::new(buffer)).ok()?;
    let img = dir.entries().get(index)?.decode().ok()?;
    Some((img.width(), img.height(), img.rgba_data().to_vec()))
}

/// The advertised pixel count of one entry.
pub open spec fn entry_area(d: (u32, u32)) -> int {
    (d.0 as int) * (d.1 as int)
}

/// The entry the loader keeps: the one maximizing the advertised area,
/// ties keeping the later entry.
pub open spec fn pick_largest(es: Seq<(u32, u32)>) -> int
    decreases es.len(),
{
    if es.len() <= 1 {
        0
    } else {
        let r = pick_largest(es.drop_last());
        if entry_area(es.last()) >= entry_area(es[r]) {
            es.len() - 1
        } else {
            r
        }
    }
}

pub proof fn lemma_pick_largest_in_range(es: Seq<(u32, u32)>)
    requires
        es.len() >= 1,
    ensures
        0 <= pick_largest(es) < es.len(),
    decreases es.len(),
{
    if es.len() > 1 {
        lemma_pick_largest_in_range(es.drop_last());
    }
}

/// What loading an ICO buffer yields: the buffer is parsed, the entry with
/// the largest advertised area is chosen (ties keep the later entry), its
/// pixels are decoded and reordered alpha-first; a buffer that does not
/// parse, holds no entry, stores unusable dimensions, or fails to decode
/// is reported as `IconLoadingFailed`.
pub open spec fn loaded_icon(buf: Seq<u8>) -> Result<KdeIconView, Error> {
    match ico_entry_dims(buf) {
        None => Err(Error::IconLoadingFailed),
        Some(es) => if es.len() == 0 {
            Err(Error::IconLoadingFailed)
        } else {
            let b = pick_largest(es);
            match ico_entry_data(buf, b) {
                Some(d) => if !decode_safe(d) {
                    Err(Error::IconLoadingFailed)
                } else {
                    match ico_decoded(buf, b) {
                        Some(t) => Ok(
                            KdeIconView {
                                width: t.0,
                                height: t.1,
                                argb_pixels: Some(argb_of(t.2)),
                            },
                        ),
                        None => Err(Error::IconLoadingFailed),
                    }
                },
                None => Err(Error::IconLoadingFailed),
            }
        },
    }
}

impl KdeIcon {
    /// Decode an ICO buffer as `loaded_icon` describes: keep the entry
    /// with the largest advertised area (ties keep the later entry) and
    /// convert its pixels to the wire's ARGB order, once, here.
    pub fn from_buffer(
        buffer: &'static [u8],
        _width: Option<u32>,
        _height: Option<u32>,
    ) -> (r: Result<KdeIcon, Error>)
        ensures
            ({
                match r {
                    Ok(k) => loaded_icon(buffer@) == Ok::<KdeIconView, Error>(k@),
                    Err(e) => loaded_icon(buffer@) == Err::<KdeIconView, Error>(e),
                }
            }),
            r matches Ok(k) ==> k@.wf() && k@.argb_pixels is Some,
    {
        let n = match entry_count(buffer) {
            Some(n) => n,
            None => {
                return Err(Error::IconLoadingFailed);
            },
        };
        if n == 0 {
            return Err(Error::IconLoadingFailed);
        }
        let ghost es = ico_entry_dims(buffer@).unwrap();
        proof {
            lemma_pick_largest_in_range(es);
        }
        let (w0, h0) = match entry_dims(buffer, 0) {
            Some(d) => d,
            None => {
                return Err(Error::IconLoadingFailed);
            },
        };
        proof {
            assert((w0 as u64) * (h0 as u64) < 0x1_0000_0000_0000_0000) by (nonlinear_arith)
                requires
                    (w0 as u64) < 0x1_0000_0000,
                    (h0 as u64) < 0x1_0000_0000,
            ;
            assert(es.take(1).len() == 1);
            assert(es.take(1)[0] == es[0]);
            assert(pick_largest(es.take(1)) == 0);
        }
        let mut best: usize = 0;
        let mut best_area: u64 = (w0 as u64) * (h0 as u64);
        let mut i: usize = 1;
        while i < n
            invariant
                1 <= i <= n,
                n == es.len(),
                ico_entry_dims(buffer@) == Some(es),
                (best as int) < i,
                best as int == pick_largest(es.take(i as int)),
                best_area == entry_area(es[best as int]),
            decreases n - i,
        {
            let (w, h) = match entry_dims(buffer, i) {
                Some(d) => d,
                None => {
                    return Err(Error::IconLoadingFailed);
                },
            };
            proof {
                assert((w as u64) * (h as u64) < 0x1_0000_0000_0000_0000) by (nonlinear_arith)
                    requires
                        (w as u64) < 0x1_0000_0000,
                        (h as u64) < 0x1_0000_0000,
                ;
            }
            let area = (w as u64) * (h as u64);
            let ghost prev = es.take(i as int);
            proof {
                assert(es.take(i as int + 1).drop_last() =~= prev);
                assert(es.take(i as int + 1).last() == es[i as int]);
                assert(es.take(i as int + 1).len() == i as int + 1);
                assert(forall|k: int| 0 <= k <= i ==> es.take(i as int + 1)[k] == es[k]);
            }
            if area >= best_area {
                best = i;
                best_area = area;
            }
            proof {
                assert(best as int == pick_largest(es.take(i as int + 1)));
            }
            i += 1;
        }
        proof {
            assert(es.take(n as int) =~= es);
        }
        let data = match entry_data(buffer, best) {
            Some(d) => d,
            None => {
                return Err(Error::IconLoadingFailed);
            },
        };
        if !entry_decode_safe(&data) {
            return Err(Error::IconLoadingFailed);
        }
        match decode_entry(buffer, best) {
            Some((w, h, rgba)) => {
                proof {
                    let k = (w as int) * (h as int);
                    assert(rgba@.len() == 4 * k) by (nonlinear_arith)
                        requires
                            rgba@.len() == 4 * (w as int) * (h as int),
                            k == (w as int) * (h as int),
                    ;
                    assert(rgba@.len() % 4 == 0);
                    lemma_argb_of_len(rgba@);
                }
                let argb = rgba_to_argb(&rgba);
                Ok(KdeIcon { width: w, height: h, argb_pixels: Some(argb) })
            },
            None => Err(Error::IconLoadingFailed),
        }
    }
}

impl Icon {
    /// Load an icon from a static ICO buffer, exactly as `loaded_icon`
    /// describes; `Err(IconLoadingFailed)` reports an unusable buffer.
    pub fn from_buffer(
        buffer: &'static [u8],
        width: Option<u32>,
        height: Option<u32>,
    ) -> (r: Result<Icon, Error>)
        ensures
            ({
                match r {
                    Ok(i) => loaded_icon(buffer@) == Ok::<KdeIconView, Error>(i@.sys) && i@.buffer
                        == Some(buffer@),
                    Err(e) => loaded_icon(buffer@) == Err::<KdeIconView, Error>(e),
                }
            }),
            r matches Ok(i) ==> i@.sys.wf(),
    {
        match KdeIcon::from_buffer(buffer, width, height) {
            Ok(sys) => Ok(Icon { buffer: Some(buffer), sys }),
            Err(e) => Err(e),
        }
    }
}

} // verus!
