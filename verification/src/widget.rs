//! The floating account widgets: their window labels, page addresses and
//! on-screen placement in physical pixels.
use vstd::prelude::*;
use crate::error::{AppError, AppErrorV, app_error};
use crate::oauth::{is_ws, sha256, sha256_text, whitespace};
use crate::text::{chars_of, concat2, concat3, str_eq, string_of};

verus! {

/// The two lowercase hexadecimal digits of a byte.
pub open spec fn hex_digit(d: int) -> char {
    if d < 10 {
        (('0' as int) + d) as char
    } else {
        (('a' as int) + d - 10) as char
    }
}

pub open spec fn byte_hex(b: u8) -> Seq<char> {
    seq![hex_digit(b as int / 16), hex_digit(b as int % 16)]
}

/// The lowercase hexadecimal text of the first eight bytes.
pub open spec fn spec_hex_prefix(bytes: Seq<u8>) -> Seq<char>
    decreases bytes.len(),
{
    let n = if bytes.len() < 8 { bytes.len() } else { 8 };
    if n == 0 {
        Seq::empty()
    } else {
        spec_hex_prefix(bytes.subrange(0, n - 1)) + byte_hex(bytes[n - 1])
    }
}

fn hex_char(d: u8) -> (c: char)
    requires
        d < 16,
    ensures
        c == hex_digit(d as int),
{
    if d < 10 {
        ((48u8 + d) as char)
    } else {
        ((97u8 + d - 10) as char)
    }
}

/// The first eight bytes of a digest in lowercase hexadecimal.
pub fn hex_prefix(bytes: &[u8]) -> (r: String)
    ensures
        r@ == spec_hex_prefix(bytes@),
{
    let n: usize = if bytes.len() < 8 { bytes.len() } else { 8 };
    let mut out: Vec<char> = Vec::new();
    let mut i: usize = 0;
    while i < n
        invariant
            n <= 8,
            n == if bytes@.len() < 8 { bytes@.len() } else { 8 },
            i <= n,
            out@ == spec_hex_prefix(bytes@.subrange(0, i as int)),
        decreases n - i,
    {
        let b = bytes[i];
        out.push(hex_char(b / 16));
        out.push(hex_char(b % 16));
        proof {
            let p = bytes@.subrange(0, i + 1);
            assert(p.subrange(0, i as int) =~= bytes@.subrange(0, i as int));
            assert(p[i as int] == b);
            assert(out@ =~= spec_hex_prefix(bytes@.subrange(0, i as int)) + byte_hex(b));
        }
        i += 1;
    }
    proof {
        if bytes@.len() < 8 {
            assert(bytes@.subrange(0, n as int) =~= bytes@);
        } else {
            let p = bytes@.subrange(0, 8);
            assert(p.subrange(0, 8) =~= p);
            reveal_with_fuel(spec_hex_prefix, 2);
            assert(spec_hex_prefix(bytes@) == spec_hex_prefix(bytes@.subrange(0, 7)) + byte_hex(bytes@[7]));
            assert(spec_hex_prefix(p) == spec_hex_prefix(p.subrange(0, 7)) + byte_hex(p[7]));
            assert(p.subrange(0, 7) =~= bytes@.subrange(0, 7));
        }
    }
    string_of(out.as_slice())
}

/// The window label of an account's widget.
pub open spec fn spec_widget_label(account_id: Seq<char>) -> Seq<char> {
    "account-widget-"@ + spec_hex_prefix(sha256_text(account_id))
}

pub fn widget_label(account_id: &str) -> (r: String)
    ensures
        r@ == spec_widget_label(account_id@),
{
    let digest = sha256(account_id);
    let hex = hex_prefix(digest.as_slice());
    concat2("account-widget-", hex.as_str())
}

/// The error of a widget operation: the message followed by the error text.
pub fn widget_error(code: &str, message: &str, error: &str) -> (r: AppError)
    ensures
        r@ == app_error(code@, message@ + ": "@ + error@),
{
    let m = concat3(message, ": ", error);
    AppError { code: crate::text::owned(code), message: m, detail: None }
}

pub open spec fn widget_account_error() -> AppErrorV {
    app_error("WIDGET_ACCOUNT"@, "缺少悬浮账号"@)
}

/// A widget needs an account id that is not blank.
pub fn check_widget_account(account_id: &str) -> (r: Result<(), AppError>)
    ensures
        match r {
            Ok(()) => exists|i: int| 0 <= i < account_id@.len() && !is_ws(#[trigger] account_id@[i]),
            Err(e) => e@ == widget_account_error() && forall|i: int|
                0 <= i < account_id@.len() ==> is_ws(#[trigger] account_id@[i]),
        },
{
    let cs = chars_of(account_id);
    let mut i: usize = 0;
    while i < cs.len()
        invariant
            cs@ == account_id@,
            i <= cs@.len(),
            forall|k: int| 0 <= k < i ==> is_ws(#[trigger] cs@[k]),
        decreases cs.len() - i,
    {
        if !whitespace(cs[i]) {
            assert(!is_ws(account_id@[i as int]));
            return Ok(());
        }
        i += 1;
    }
    Err(AppError::new("WIDGET_ACCOUNT", "缺少悬浮账号"))
}

/// The form-urlencoding writer (`application/x-www-form-urlencoded`) of a
/// text's UTF-8 bytes.
pub uninterp spec fn form_urlencode(text: Seq<char>) -> Seq<char>;

/// Encodes with `url::form_urlencoded::byte_serialize`. Claims the writer's text.
#[verifier::external_body]
fn form_encode(text: &str) -> (r: String)
    ensures
        r@ == form_urlencode(text@),
{
    url::form_urlencoded::byte_serialize(text.as_bytes()).collect()
}

/// The page a widget shows.
pub fn widget_page(account_id: &str) -> (r: String)
    ensures
        r@ == "index.html?widget=1&account="@ + form_urlencode(account_id@),
{
    let encoded = form_encode(account_id);
    concat2("index.html?widget=1&account=", encoded.as_str())
}

/// Rust's `/` on integers: division truncated toward zero.
pub open spec fn trunc_div(a: int, b: int) -> int {
    if a >= 0 {
        a / b
    } else {
        -((-a) / b)
    }
}

/// The largest coordinate magnitude handled, that of 32-bit screen coordinates.
pub open spec fn coord_bound() -> int {
    2_147_483_648
}

pub open spec fn in_coords(v: int) -> bool {
    -coord_bound() <= v <= coord_bound()
}

/// Whether a window of width `w` at `x` sits on the right half of a screen
/// at `ox` of width `sw`: its center lies right of the screen's center.
pub open spec fn on_right(x: int, w: int, ox: int, sw: int) -> bool {
    x + w / 2 > ox + sw / 2
}

pub fn right_half(x: i64, w: i64, ox: i64, sw: i64) -> (r: bool)
    requires
        in_coords(x as int),
        0 <= w <= coord_bound(),
        in_coords(ox as int),
        0 <= sw <= coord_bound(),
    ensures
        r == on_right(x as int, w as int, ox as int, sw as int),
{
    x + w / 2 > ox + sw / 2
}

/// Where snapping puts a widget: against the requested side (`"left"`,
/// `"right"`, otherwise the nearer one) at `gap` from the edge, its height
/// kept within the screen.
pub open spec fn spec_snap(x: int, y: int, w: int, h: int, ox: int, oy: int, sw: int, sh: int, gap: int, side: Option<Seq<char>>) -> (int, int) {
    let use_right = if side == Some("left"@) {
        false
    } else if side == Some("right"@) {
        true
    } else {
        on_right(x, w, ox, sw)
    };
    let nx = if use_right { ox + sw - w - gap } else { ox + gap };
    let lo = oy + gap;
    let hi = oy + sh - h - gap;
    let ny = if y < lo { lo } else if y > hi { hi } else { y };
    (nx, ny)
}

pub fn snap(x: i64, y: i64, w: i64, h: i64, ox: i64, oy: i64, sw: i64, sh: i64, gap: i64, side: Option<&str>) -> (r: (i64, i64))
    requires
        in_coords(x as int),
        in_coords(y as int),
        0 <= w <= coord_bound(),
        0 <= h <= coord_bound(),
        in_coords(ox as int),
        in_coords(oy as int),
        0 <= sw <= coord_bound(),
        0 <= sh <= coord_bound(),
        in_coords(gap as int),
        oy + gap <= oy + sh - h - gap,
    ensures
        (r.0 as int, r.1 as int) == spec_snap(
            x as int,
            y as int,
            w as int,
            h as int,
            ox as int,
            oy as int,
            sw as int,
            sh as int,
            gap as int,
            crate::text::opt_str(side),
        ),
{
    let use_right = match side {
        Some(s) => if str_eq(s, "left") {
            false
        } else if str_eq(s, "right") {
            true
        } else {
            right_half(x, w, ox, sw)
        },
        None => right_half(x, w, ox, sw),
    };
    let nx = if use_right { ox + sw - w - gap } else { ox + gap };
    let lo = oy + gap;
    let hi = oy + sh - h - gap;
    let ny = if y < lo { lo } else if y > hi { hi } else { y };
    (nx, ny)
}

/// Where the `index`-th new widget goes when it has no saved place: in
/// columns from the right edge of the screen, top to bottom, as many rows
/// as fit (at least one).
pub open spec fn spec_slot(index: int, ox: int, oy: int, sw: int, sh: int, w: int, h: int, gap: int) -> (int, int) {
    let fit = trunc_div(sh - gap * 2, h + gap);
    let slots = if fit < 1 { 1 } else { fit };
    let row = index % slots;
    let column = index / slots;
    (ox + sw - w - gap - column * (w + gap), oy + gap + row * (h + gap))
}

/// Whether a value fits in 32-bit signed screen coordinates.
pub open spec fn in_i32(v: int) -> bool {
    -2_147_483_648 <= v <= 2_147_483_647
}

/// Whether the `index`-th slot can be computed in 32-bit screen
/// coordinates: every intermediate value of the computation fits.
pub open spec fn slot_fits(index: int, ox: int, oy: int, sw: int, sh: int, w: int, h: int, gap: int) -> bool {
    let fit = trunc_div(sh - gap * 2, h + gap);
    let slots = if fit < 1 { 1 } else { fit };
    let row = index % slots;
    let column = index / slots;
    &&& in_i32(gap * 2)
    &&& in_i32(sh - gap * 2)
    &&& in_i32(h + gap)
    &&& in_i32(w + gap)
    &&& in_i32(column)
    &&& in_i32(column * (w + gap))
    &&& in_i32(row * (h + gap))
    &&& in_i32(ox + sw)
    &&& in_i32(ox + sw - w)
    &&& in_i32(ox + sw - w - gap)
    &&& in_i32(ox + sw - w - gap - column * (w + gap))
    &&& in_i32(oy + gap)
    &&& in_i32(oy + gap + row * (h + gap))
}

/// The number of rows of slots on a screen of height `sh`, as `spec_slot`
/// counts them.
fn slot_rows(sh: i64, h: i64, gap: i64) -> (r: i64)
    requires
        0 <= sh <= coord_bound(),
        0 <= h <= coord_bound(),
        0 <= gap <= coord_bound(),
        h + gap > 0,
    ensures
        r == (if trunc_div(sh - gap * 2, h + gap) < 1 { 1 } else { trunc_div(sh - gap * 2, h + gap) }),
        1 <= r <= coord_bound(),
{
    let span = sh - gap * 2;
    let fit = if span >= 0 { span / (h + gap) } else { -((-span) / (h + gap)) };
    proof {
        if span >= 0 {
            let d = (h + gap) as int;
            assert(span as int / d <= span as int) by (nonlinear_arith)
                requires span >= 0, d >= 1;
        }
    }
    if fit < 1 { 1 } else { fit }
}

fn fits_i32(v: i64) -> (b: bool)
    ensures
        b == in_i32(v as int),
{
    -2_147_483_648 <= v && v <= 2_147_483_647
}

/// Whether the `index`-th slot can be computed in 32-bit screen coordinates.
pub fn slot_in_range(index: u64, ox: i64, oy: i64, sw: i64, sh: i64, w: i64, h: i64, gap: i64) -> (r: bool)
    requires
        in_coords(ox as int),
        in_coords(oy as int),
        0 <= sw <= coord_bound(),
        0 <= sh <= coord_bound(),
        0 <= w <= coord_bound(),
        0 <= h <= coord_bound(),
        0 <= gap <= coord_bound(),
        h + gap > 0,
    ensures
        r == slot_fits(index as int, ox as int, oy as int, sw as int, sh as int, w as int, h as int, gap as int),
{
    let slots = slot_rows(sh, h, gap);
    let row = (index % (slots as u64)) as i64;
    let column = index / (slots as u64);
    if column > 2_147_483_647 {
        return false;
    }
    let column = column as i64;
    proof {
        assert(0 <= row < slots);
        assert(column * (w + gap) <= 2_147_483_647 * (2 * coord_bound())) by (nonlinear_arith)
            requires 0 <= column <= 2_147_483_647, 0 <= w + gap <= 2 * coord_bound();
        assert(0 <= column * (w + gap)) by (nonlinear_arith)
            requires 0 <= column, 0 <= w + gap;
        assert(row * (h + gap) <= (coord_bound() - 1) * (2 * coord_bound())) by (nonlinear_arith)
            requires 0 <= row <= coord_bound() - 1, 0 <= h + gap <= 2 * coord_bound();
        assert(0 <= row * (h + gap)) by (nonlinear_arith)
            requires 0 <= row, 0 <= h + gap;
    }
    let c = column * (w + gap);
    let down = row * (h + gap);
    let x = ox + sw - w - gap;
    if !(fits_i32(c) && fits_i32(x)) {
        return false;
    }
    fits_i32(gap * 2) && fits_i32(sh - gap * 2) && fits_i32(h + gap) && fits_i32(w + gap) && fits_i32(down) && fits_i32(
        ox + sw,
    ) && fits_i32(ox + sw - w) && fits_i32(x - c) && fits_i32(oy + gap) && fits_i32(oy + gap + down)
}

pub fn slot(index: u64, ox: i64, oy: i64, sw: i64, sh: i64, w: i64, h: i64, gap: i64) -> (r: (i64, i64))
    requires
        in_coords(ox as int),
        in_coords(oy as int),
        0 <= sw <= coord_bound(),
        0 <= sh <= coord_bound(),
        0 <= w <= coord_bound(),
        0 <= h <= coord_bound(),
        0 <= gap <= coord_bound(),
        h + gap > 0,
        slot_fits(index as int, ox as int, oy as int, sw as int, sh as int, w as int, h as int, gap as int),
    ensures
        (r.0 as int, r.1 as int) == spec_slot(index as int, ox as int, oy as int, sw as int, sh as int, w as int, h as int, gap as int),
        in_i32(r.0 as int) && in_i32(r.1 as int),
{
    let slots = slot_rows(sh, h, gap);
    let row = (index % (slots as u64)) as i64;
    let column = (index / (slots as u64)) as i64;
    (ox + sw - w - gap - column * (w + gap), oy + gap + row * (h + gap))
}

pub open spec fn clamp(v: int, lo: int, hi: int) -> int {
    if v < lo {
        lo
    } else if v > hi {
        hi
    } else {
        v
    }
}

/// Where a widget with a saved place goes: `(px, py)` is its saved offset
/// from the screen's corner; a widget saved on the right half goes against
/// the right edge; otherwise the offset is kept, within the screen.
pub open spec fn spec_restore(px: int, py: int, right: bool, w: int, h: int, ox: int, oy: int, sw: int, sh: int, gap: int) -> (int, int) {
    let x = if right { ox + sw - w - gap } else { clamp(ox + px, ox + gap, ox + sw - w - gap) };
    (x, clamp(oy + py, oy + gap, oy + sh - h - gap))
}

pub fn restore(px: i64, py: i64, right: bool, w: i64, h: i64, ox: i64, oy: i64, sw: i64, sh: i64, gap: i64) -> (r: (i64, i64))
    requires
        in_coords(px as int),
        in_coords(py as int),
        0 <= w <= coord_bound(),
        0 <= h <= coord_bound(),
        in_coords(ox as int),
        in_coords(oy as int),
        0 <= sw <= coord_bound(),
        0 <= sh <= coord_bound(),
        in_coords(gap as int),
        right || ox + gap <= ox + sw - w - gap,
        oy + gap <= oy + sh - h - gap,
    ensures
        (r.0 as int, r.1 as int) == spec_restore(
            px as int,
            py as int,
            right,
            w as int,
            h as int,
            ox as int,
            oy as int,
            sw as int,
            sh as int,
            gap as int,
        ),
{
    let hi_x = ox + sw - w - gap;
    let x = if right {
        hi_x
    } else {
        let v = ox + px;
        let lo = ox + gap;
        if v < lo { lo } else if v > hi_x { hi_x } else { v }
    };
    let v = oy + py;
    let lo = oy + gap;
    let hi = oy + sh - h - gap;
    let y = if v < lo { lo } else if v > hi { hi } else { v };
    (x, y)
}

/// A monitor as a saved widget place remembers it: its name, if it has one,
/// and its rectangle in physical pixels.
pub struct Screen {
    pub name: Option<String>,
    pub x: i32,
    pub y: i32,
    pub width: u32,
    pub height: u32,
}

pub struct ScreenV {
    pub name: Option<Seq<char>>,
    pub x: int,
    pub y: int,
    pub width: int,
    pub height: int,
}

impl View for Screen {
    type V = ScreenV;

    open spec fn view(&self) -> ScreenV {
        ScreenV {
            name: crate::text::opt_view(self.name),
            x: self.x as int,
            y: self.y as int,
            width: self.width as int,
            height: self.height as int,
        }
    }
}

pub open spec fn screens_view(s: Seq<Screen>) -> Seq<ScreenV> {
    s.map_values(|m: Screen| m@)
}

/// A monitor is the saved one by name when the saved place has a name.
pub open spec fn same_name(m: ScreenV, saved: ScreenV) -> bool {
    saved.name is Some && m.name == saved.name
}

/// A monitor is the saved one by its rectangle.
pub open spec fn same_rect(m: ScreenV, saved: ScreenV) -> bool {
    m.x == saved.x && m.y == saved.y && m.width == saved.width && m.height == saved.height
}

/// Whether a monitor is the saved one, by name or by rectangle.
pub open spec fn hit(m: ScreenV, saved: ScreenV, by_name: bool) -> bool {
    if by_name {
        same_name(m, saved)
    } else {
        same_rect(m, saved)
    }
}

/// The first index of `ms` that is the saved monitor, by name or by rectangle.
pub open spec fn first_with(ms: Seq<ScreenV>, saved: ScreenV, by_name: bool) -> Option<int> {
    if exists|i: int| 0 <= i < ms.len() && #[trigger] hit(ms[i], saved, by_name) {
        Some(
            choose|i: int|
                0 <= i < ms.len() && #[trigger] hit(ms[i], saved, by_name) && forall|k: int|
                    0 <= k < i ==> !hit(#[trigger] ms[k], saved, by_name),
        )
    } else {
        None
    }
}

/// The monitor a saved place belongs to: the first with its name, else the
/// first with its rectangle.
pub open spec fn spec_saved_screen(ms: Seq<ScreenV>, saved: ScreenV) -> Option<int> {
    match first_with(ms, saved, true) {
        Some(i) => Some(i),
        None => first_with(ms, saved, false),
    }
}

fn same_text(a: &Option<String>, b: &Option<String>) -> (r: bool)
    ensures
        r == (crate::text::opt_view(*a) == crate::text::opt_view(*b)),
{
    match (a, b) {
        (Some(x), Some(y)) => str_eq(x.as_str(), y.as_str()),
        (None, None) => true,
        _ => false,
    }
}

fn find_screen(ms: &Vec<Screen>, saved: &Screen, by_name: bool) -> (r: Option<usize>)
    ensures
        match r {
            Some(i) => first_with(screens_view(ms@), saved@, by_name) == Some(i as int),
            None => first_with(screens_view(ms@), saved@, by_name) is None,
        },
{
    let ghost v = screens_view(ms@);
    let mut i: usize = 0;
    while i < ms.len()
        invariant
            v == screens_view(ms@),
            i <= ms@.len(),
            forall|k: int| 0 <= k < i ==> !hit(#[trigger] v[k], saved@, by_name),
        decreases ms.len() - i,
    {
        let m = &ms[i];
        let found = if by_name {
            saved.name.is_some() && same_text(&m.name, &saved.name)
        } else {
            m.x == saved.x && m.y == saved.y && m.width == saved.width && m.height == saved.height
        };
        if found {
            proof {
                assert(hit(v[i as int], saved@, by_name));
                let c = choose|j: int|
                    0 <= j < v.len() && #[trigger] hit(v[j], saved@, by_name) && forall|k: int|
                        0 <= k < j ==> !hit(#[trigger] v[k], saved@, by_name);
                assert(0 <= c < v.len() && hit(v[c], saved@, by_name) && forall|k: int|
                    0 <= k < c ==> !hit(#[trigger] v[k], saved@, by_name));
                if c > i {
                    assert(!hit(v[i as int], saved@, by_name));
                }
            }
            return Some(i);
        }
        assert(!hit(v[i as int], saved@, by_name));
        i += 1;
    }
    None
}

/// The index of the monitor that a saved widget place belongs to.
pub fn saved_screen(ms: &Vec<Screen>, saved: &Screen) -> (r: Option<usize>)
    ensures
        match r {
            Some(i) => spec_saved_screen(screens_view(ms@), saved@) == Some(i as int),
            None => spec_saved_screen(screens_view(ms@), saved@) is None,
        },
{
    match find_screen(ms, saved, true) {
        Some(i) => Some(i),
        None => find_screen(ms, saved, false),
    }
}

} // verus!
