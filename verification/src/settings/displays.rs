//! The displays panel: modes, orientation, colour and HDR of each output.

use crate::double::{narrow, narrowed};
use crate::paths::{file_name, name_in};
use crate::single::{below, equal, equals, less};
use crate::text::{dec, dec_int, decimal, decimal_int, opt_view, same};
use vstd::prelude::*;

verus! {

// ---------------------------------------------------------------------------
// Displays
// ---------------------------------------------------------------------------

#[derive(Debug, Clone, Copy, PartialEq, Eq, Structural)]
pub struct DisplayModeConfig {
    pub width: i32,
    pub height: i32,
    pub refresh_mhz: i32,
}

#[derive(Debug, Clone, Copy, PartialEq, Eq, Structural)]
pub enum DisplayColorProfile {
    Auto,
    Srgb,
    DisplayP3,
}

/// A number as the bits of its IEEE 754 single.
#[derive(Debug, Clone, Copy, PartialEq, Eq, Structural)]
pub struct Level {
    pub bits: u32,
}

/// How HDR output is shaped.
#[derive(Debug, Clone, Copy, PartialEq, Eq, Structural)]
pub struct HdrAppearance {
    pub black_level_nits: Level,
    pub reference_white_nits: Level,
    pub peak_nits: Level,
    pub full_frame_peak_nits: Level,
    pub saturation: Level,
    pub midtone_gamma: Level,
}

/// How far an attempt at exclusive HDR has come.
#[derive(Debug, Clone, Copy, PartialEq, Eq, Structural)]
pub enum ExclusiveHdrPhase {
    Off,
    Disabled,
    Requested,
    Starting,
    Verifying,
    Active,
    Failed,
}

/// An output and its settings. The scale is carried as the bits of its IEEE 754
/// double.
#[derive(Debug, PartialEq, Eq)]
pub struct DisplayConfig {
    pub name: String,
    pub enabled: bool,
    pub mode_width: i32,
    pub mode_height: i32,
    pub refresh_mhz: i32,
    pub available_modes: Vec<DisplayModeConfig>,
    pub scale: u64,
    pub logical_x: i32,
    pub logical_y: i32,
    pub physical_width_mm: Option<i32>,
    pub physical_height_mm: Option<i32>,
    pub primary: bool,
    pub transform: String,
    pub hdr_supported: bool,
    pub hdr_requested: bool,
    pub hdr_enabled: bool,
    pub hdr_appearance: HdrAppearance,
    pub color_profile: DisplayColorProfile,
    pub icc_profile_path: Option<String>,
    pub icc_lut_fallback_active: bool,
    pub wide_gamut_active: bool,
    pub exclusive_hdr_phase: ExclusiveHdrPhase,
    pub exclusive_hdr_reason: Option<String>,
}

/// What the compositor is told of an output. The scale is carried as the bits of
/// its IEEE 754 single.
#[derive(Debug)]
pub struct OutputConfig {
    pub connector: String,
    pub enabled: bool,
    pub x: i32,
    pub y: i32,
    pub width: i32,
    pub height: i32,
    pub refresh_mhz: i32,
    pub scale: u32,
    pub primary: bool,
    pub color_profile: DisplayColorProfile,
    pub icc_profile_path: Option<String>,
    pub hdr_requested: bool,
    pub hdr_enabled: bool,
    pub hdr_appearance: HdrAppearance,
}

/// What the compositor is told of a display: that HDR is asked for, and that it
/// is active, are two things.
pub open spec fn describes(o: OutputConfig, d: DisplayConfig) -> bool {
    &&& o.connector@ == d.name@
    &&& o.enabled == d.enabled
    &&& o.x == d.logical_x
    &&& o.y == d.logical_y
    &&& o.width == d.mode_width
    &&& o.height == d.mode_height
    &&& o.refresh_mhz == d.refresh_mhz
    &&& o.scale == narrowed(d.scale)
    &&& o.primary == d.primary
    &&& o.color_profile == d.color_profile
    &&& opt_view(o.icc_profile_path) == opt_view(d.icc_profile_path)
    &&& o.hdr_requested == d.hdr_requested
    &&& o.hdr_enabled == d.hdr_enabled
    &&& o.hdr_appearance == d.hdr_appearance
}

fn clone_text(text: &Option<String>) -> (r: Option<String>)
    ensures
        r == *text,
{
    match text {
        Some(t) => Some(t.clone()),
        None => None,
    }
}

/// What the compositor is told of a display.
pub fn output_config_from_display(display: &DisplayConfig) -> (r: OutputConfig)
    ensures
        describes(r, *display),
{
    OutputConfig {
        connector: display.name.clone(),
        enabled: display.enabled,
        x: display.logical_x,
        y: display.logical_y,
        width: display.mode_width,
        height: display.mode_height,
        refresh_mhz: display.refresh_mhz,
        scale: narrow(display.scale),
        primary: display.primary,
        color_profile: display.color_profile,
        icc_profile_path: clone_text(&display.icc_profile_path),
        hdr_requested: display.hdr_requested,
        hdr_enabled: display.hdr_enabled,
        hdr_appearance: display.hdr_appearance,
    }
}

/// What the compositor is told of all displays.
pub fn display_outputs(displays: &Vec<DisplayConfig>) -> (r: Vec<OutputConfig>)
    ensures
        r.len() == displays.len(),
        forall|i: int| 0 <= i < displays.len() ==> describes(#[trigger] r[i], displays[i]),
{
    let mut out: Vec<OutputConfig> = Vec::new();
    let mut i: usize = 0;
    while i < displays.len()
        invariant
            i <= displays.len(),
            out.len() == i,
            forall|k: int| 0 <= k < i ==> describes(#[trigger] out[k], displays[k]),
        decreases displays.len() - i,
    {
        out.push(output_config_from_display(&displays[i]));
        i += 1;
    }
    out
}

// ---------------------------------------------------------------------------
// Labels
// ---------------------------------------------------------------------------

/// Whether HDR is active, only asked for, or off.
pub fn hdr_status_subtitle(hdr_requested: bool, hdr_enabled: bool) -> (r: &'static str)
    ensures
        r@ == if hdr_enabled {
            "Active now"@
        } else if hdr_requested {
            "Requested, but inactive"@
        } else {
            "Off"@
        },
{
    if hdr_enabled {
        "Active now"
    } else if hdr_requested {
        "Requested, but inactive"
    } else {
        "Off"
    }
}

pub open spec fn color_profile_label(profile: DisplayColorProfile) -> Seq<char> {
    match profile {
        DisplayColorProfile::Auto => "Auto color profile"@,
        DisplayColorProfile::Srgb => "sRGB output"@,
        DisplayColorProfile::DisplayP3 => "Display P3 output"@,
    }
}

pub fn display_color_profile_label(profile: DisplayColorProfile) -> (r: &'static str)
    ensures
        r@ == color_profile_label(profile),
{
    match profile {
        DisplayColorProfile::Auto => "Auto color profile",
        DisplayColorProfile::Srgb => "sRGB output",
        DisplayColorProfile::DisplayP3 => "Display P3 output",
    }
}

/// A profile is called by the name of its file, or else by its path.
pub open spec fn icc_label(path: Seq<char>) -> Seq<char> {
    match name_in(path) {
        Some(name) => name,
        None => path,
    }
}

pub fn display_icc_profile_label(path: &str) -> (r: String)
    ensures
        r@ == icc_label(path@),
{
    match file_name(path) {
        Some(name) => name,
        None => path.to_owned(),
    }
}

/// The line below the choice of a profile.
pub fn icc_subtitle(path: &Option<String>) -> (r: String)
    ensures
        r@ == match opt_view(*path) {
            Some(p) => "Selected: "@ + icc_label(p),
            None => "No ICC file selected"@,
        },
{
    match path {
        Some(p) => "Selected: ".to_owned().concat(display_icc_profile_label(p.as_str()).as_str()),
        None => "No ICC file selected".to_owned(),
    }
}

/// The four orientations.
pub open spec fn orientation_index(transform: Seq<char>) -> u32 {
    if transform == "Rotate90"@ {
        1
    } else if transform == "Rotate180"@ {
        2
    } else if transform == "Rotate270"@ {
        3
    } else {
        0
    }
}

pub open spec fn orientation_label(index: u32) -> Seq<char> {
    match index {
        1u32 => "Portrait Right"@,
        2u32 => "Landscape Flipped"@,
        3u32 => "Portrait Left"@,
        _ => "Landscape"@,
    }
}

pub open spec fn orientation_name(index: u32) -> Seq<char> {
    match index {
        1u32 => "Rotate90"@,
        2u32 => "Rotate180"@,
        3u32 => "Rotate270"@,
        _ => "Normal"@,
    }
}

/// The position of an orientation in its menu.
pub fn transform_index(transform: &str) -> (r: u32)
    ensures
        r == orientation_index(transform@),
{
    if same(transform, "Rotate90") {
        1
    } else if same(transform, "Rotate180") {
        2
    } else if same(transform, "Rotate270") {
        3
    } else {
        0
    }
}

/// What an orientation is called.
pub fn transform_label(transform: &str) -> (r: &'static str)
    ensures
        r@ == orientation_label(orientation_index(transform@)),
{
    match transform_index(transform) {
        1 => "Portrait Right",
        2 => "Landscape Flipped",
        3 => "Portrait Left",
        _ => "Landscape",
    }
}

/// The orientation at a position of its menu.
pub fn transform_from_index(index: u32) -> (r: &'static str)
    ensures
        r@ == orientation_name(index),
{
    match index {
        1 => "Rotate90",
        2 => "Rotate180",
        3 => "Rotate270",
        _ => "Normal",
    }
}

proof fn lemma_orientation_names()
    ensures
        "Rotate90"@ != "Rotate180"@,
        "Rotate90"@ != "Rotate270"@,
        "Rotate180"@ != "Rotate270"@,
        "Normal"@ != "Rotate90"@,
        "Normal"@ != "Rotate180"@,
        "Normal"@ != "Rotate270"@,
{
    reveal_strlit("Rotate90");
    reveal_strlit("Rotate180");
    reveal_strlit("Rotate270");
    reveal_strlit("Normal");
    assert("Rotate180"@[6] == '1');
    assert("Rotate270"@[6] == '2');
    assert("Normal"@.len() == 6);
}

/// The orientation that is chosen is the one that is shown as chosen.
pub proof fn law_orientation_round_trip(index: u32)
    requires
        index < 4,
    ensures
        orientation_index(orientation_name(index)) == index,
{
    lemma_orientation_names();
}

pub open spec fn color_profile_index(profile: DisplayColorProfile) -> u32 {
    match profile {
        DisplayColorProfile::Auto => 0,
        DisplayColorProfile::Srgb => 1,
        DisplayColorProfile::DisplayP3 => 2,
    }
}

pub open spec fn color_profile_at(index: u32) -> DisplayColorProfile {
    match index {
        1u32 => DisplayColorProfile::Srgb,
        2u32 => DisplayColorProfile::DisplayP3,
        _ => DisplayColorProfile::Auto,
    }
}

/// The position of a colour profile in its menu.
pub fn display_color_profile_index(profile: DisplayColorProfile) -> (r: u32)
    ensures
        r == color_profile_index(profile),
{
    match profile {
        DisplayColorProfile::Auto => 0,
        DisplayColorProfile::Srgb => 1,
        DisplayColorProfile::DisplayP3 => 2,
    }
}

/// The colour profile at a position of its menu.
pub fn selected_display_color_profile(index: u32) -> (r: DisplayColorProfile)
    ensures
        r == color_profile_at(index),
{
    match index {
        1 => DisplayColorProfile::Srgb,
        2 => DisplayColorProfile::DisplayP3,
        _ => DisplayColorProfile::Auto,
    }
}

/// Positions and colour profiles stand for each other.
pub proof fn law_color_profile_round_trip(profile: DisplayColorProfile, index: u32)
    ensures
        color_profile_at(color_profile_index(profile)) == profile,
        index < 3 ==> color_profile_index(color_profile_at(index)) == index,
{
}

/// A thousandth, rounded toward zero.
pub open spec fn thousandth(n: int) -> int {
    if n >= 0 {
        n / 1000
    } else {
        -((-n) / 1000)
    }
}

fn hertz(refresh_mhz: i32) -> (r: String)
    ensures
        r@ == dec_int(thousandth(refresh_mhz as int)),
{
    let n: i64 = refresh_mhz as i64;
    if n >= 0 {
        decimal_int(n / 1000)
    } else {
        decimal_int(-((-n) / 1000))
    }
}

/// A refresh rate in its menu.
pub fn refresh_label(refresh_mhz: i32) -> (r: String)
    ensures
        r@ == dec_int(thousandth(refresh_mhz as int)) + " Hz"@,
{
    hertz(refresh_mhz).concat(" Hz")
}

/// A resolution in its menu.
pub fn resolution_label(width: i32, height: i32) -> (r: String)
    ensures
        r@ == dec_int(width as int) + " x "@ + dec_int(height as int),
{
    decimal_int(width as i64).concat(" x ").concat(decimal_int(height as i64).as_str())
}

/// A display in a line; the scale comes with two digits.
pub open spec fn summary_of(d: DisplayConfig, scale_text: Seq<char>) -> Seq<char> {
    dec_int(d.mode_width as int) + "x"@ + dec_int(d.mode_height as int) + " @ "@ + dec_int(
        thousandth(d.refresh_mhz as int),
    ) + " Hz  |  "@ + orientation_label(orientation_index(d.transform@)) + "  |  "@ + (match
    d.icc_profile_path {
        Some(path) => icc_label(path@),
        None => color_profile_label(d.color_profile),
    }) + "  |  "@ + (if d.wide_gamut_active {
        "Wide-gamut active"@
    } else {
        "sRGB advertised"@
    }) + "  |  Scale "@ + scale_text + (if d.primary {
        "  |  Primary"@
    } else {
        ""@
    }) + (if d.enabled {
        ""@
    } else {
        "  |  Disabled"@
    }) + (if d.icc_lut_fallback_active {
        "  |  ICC LUT fallback active"@
    } else {
        ""@
    })
}

/// A display in a line.
pub fn display_summary(d: &DisplayConfig, scale_text: &str) -> (r: String)
    ensures
        r@ == summary_of(*d, scale_text@),
{
    let profile = match &d.icc_profile_path {
        Some(path) => display_icc_profile_label(path.as_str()),
        None => display_color_profile_label(d.color_profile).to_owned(),
    };
    let gamut = if d.wide_gamut_active {
        "Wide-gamut active"
    } else {
        "sRGB advertised"
    };
    let mut out = decimal_int(d.mode_width as i64);
    out.append("x");
    out.append(decimal_int(d.mode_height as i64).as_str());
    out.append(" @ ");
    out.append(hertz(d.refresh_mhz).as_str());
    out.append(" Hz  |  ");
    out.append(transform_label(d.transform.as_str()));
    out.append("  |  ");
    out.append(profile.as_str());
    out.append("  |  ");
    out.append(gamut);
    out.append("  |  Scale ");
    out.append(scale_text);
    out.append(
        if d.primary {
            "  |  Primary"
        } else {
            ""
        },
    );
    out.append(
        if d.enabled {
            ""
        } else {
            "  |  Disabled"
        },
    );
    out.append(
        if d.icc_lut_fallback_active {
            "  |  ICC LUT fallback active"
        } else {
            ""
        },
    );
    out
}

// ---------------------------------------------------------------------------
// Modes
// ---------------------------------------------------------------------------

/// `a` comes before `b`: by width, then by height.
pub open spec fn pair_before(a: (i32, i32), b: (i32, i32)) -> bool {
    a.0 < b.0 || (a.0 == b.0 && a.1 < b.1)
}

/// Each comes before the next: sorted, and nothing twice.
pub open spec fn ascending_pairs(list: Seq<(i32, i32)>) -> bool {
    forall|i: int, j: int| 0 <= i < j < list.len() ==> pair_before(list[i], list[j])
}

pub open spec fn ascending(list: Seq<i32>) -> bool {
    forall|i: int, j: int| 0 <= i < j < list.len() ==> list[i] < list[j]
}

/// The display has, or uses, a mode of this size.
pub open spec fn offers_size(d: DisplayConfig, size: (i32, i32)) -> bool {
    size == (d.mode_width, d.mode_height) || exists|i: int|
        0 <= i < d.available_modes@.len() && ((#[trigger] d.available_modes@[i]).width,
            d.available_modes@[i].height) == size
}

/// The display has, or uses, a mode of this size and rate.
pub open spec fn offers_rate(d: DisplayConfig, width: i32, height: i32, rate: i32) -> bool {
    (width == d.mode_width && height == d.mode_height && rate == d.refresh_mhz) || exists|i: int|
        0 <= i < d.available_modes@.len() && (#[trigger] d.available_modes@[i]).width == width
            && d.available_modes@[i].height == height && d.available_modes@[i].refresh_mhz == rate
}

fn add_pair(list: &mut Vec<(i32, i32)>, p: (i32, i32))
    requires
        ascending_pairs(old(list)@),
    ensures
        ascending_pairs(final(list)@),
        forall|q: (i32, i32)|
            #[trigger] final(list)@.contains(q) <==> old(list)@.contains(q) || q == p,
{
    let ghost before = list@;
    let mut i: usize = 0;
    while i < list.len() && (list[i].0 < p.0 || (list[i].0 == p.0 && list[i].1 < p.1))
        invariant
            i <= list.len(),
            list@ == before,
            forall|k: int| 0 <= k < i ==> pair_before(#[trigger] list[k], p),
        decreases list.len() - i,
    {
        i += 1;
    }
    if i < list.len() && list[i].0 == p.0 && list[i].1 == p.1 {
        assert(before[i as int] == p);
        return;
    }
    list.insert(i, p);
    proof {
        let out = list@;
        assert(out =~= before.insert(i as int, p));
        assert forall|q: (i32, i32)| #[trigger] out.contains(q) <==> before.contains(q) || q
            == p by {
            if out.contains(q) {
                let k = choose|k: int| 0 <= k < out.len() && out[k] == q;
                if k < i {
                    assert(before[k] == q);
                } else if k > i {
                    assert(before[k - 1] == q);
                }
            }
            if before.contains(q) {
                let k = choose|k: int| 0 <= k < before.len() && before[k] == q;
                if k < i {
                    assert(out[k] == q);
                } else {
                    assert(out[k + 1] == q);
                }
            }
            if q == p {
                assert(out[i as int] == q);
            }
        }
        assert forall|a: int, b: int| 0 <= a < b < out.len() implies pair_before(
            out[a],
            out[b],
        ) by {
            if a < i && b == i {
                assert(pair_before(before[a], p));
            } else if a == i {
                assert(out[b] == before[b - 1]);
                assert(!pair_before(before[i as int], p) && before[i as int] != p);
                if b - 1 > i {
                    assert(pair_before(before[i as int], before[b - 1]));
                }
            }
        }
    }
}

fn add_number(list: &mut Vec<i32>, n: i32)
    requires
        ascending(old(list)@),
    ensures
        ascending(final(list)@),
        forall|q: i32| #[trigger] final(list)@.contains(q) <==> old(list)@.contains(q) || q == n,
{
    let ghost before = list@;
    let mut i: usize = 0;
    while i < list.len() && list[i] < n
        invariant
            i <= list.len(),
            list@ == before,
            forall|k: int| 0 <= k < i ==> #[trigger] list[k] < n,
        decreases list.len() - i,
    {
        i += 1;
    }
    if i < list.len() && list[i] == n {
        assert(before[i as int] == n);
        return;
    }
    list.insert(i, n);
    proof {
        let out = list@;
        assert(out =~= before.insert(i as int, n));
        assert forall|q: i32| #[trigger] out.contains(q) <==> before.contains(q) || q == n by {
            if out.contains(q) {
                let k = choose|k: int| 0 <= k < out.len() && out[k] == q;
                if k < i {
                    assert(before[k] == q);
                } else if k > i {
                    assert(before[k - 1] == q);
                }
            }
            if before.contains(q) {
                let k = choose|k: int| 0 <= k < before.len() && before[k] == q;
                if k < i {
                    assert(out[k] == q);
                } else {
                    assert(out[k + 1] == q);
                }
            }
            if q == n {
                assert(out[i as int] == q);
            }
        }
    }
}

/// The sizes that a display can be set to, in ascending order: those of its
/// modes, and the one that it has.
pub fn resolution_options(display: &DisplayConfig) -> (r: Vec<(i32, i32)>)
    ensures
        ascending_pairs(r@),
        forall|size: (i32, i32)| #[trigger] r@.contains(size) <==> offers_size(*display, size),
{
    let mut out: Vec<(i32, i32)> = Vec::new();
    out.push((display.mode_width, display.mode_height));
    let mut i: usize = 0;
    proof {
        assert forall|size: (i32, i32)| #[trigger] out@.contains(size) <==> size == (
            display.mode_width,
            display.mode_height,
        ) by {
            assert(out@[0] == (display.mode_width, display.mode_height));
        }
    }
    while i < display.available_modes.len()
        invariant
            i <= display.available_modes.len(),
            ascending_pairs(out@),
            forall|size: (i32, i32)| #[trigger]
                out@.contains(size) <==> size == (display.mode_width, display.mode_height)
                    || exists|k: int|
                    0 <= k < i && ((#[trigger] display.available_modes@[k]).width,
                        display.available_modes@[k].height) == size,
        decreases display.available_modes.len() - i,
    {
        let m = display.available_modes[i];
        add_pair(&mut out, (m.width, m.height));
        assert(display.available_modes@[i as int] == m);
        i += 1;
    }
    out
}

/// The rates that a display can be set to at a size, in ascending order: those
/// of its modes, and at the size that it has also the rate that it has.
pub fn refresh_options(display: &DisplayConfig, width: i32, height: i32) -> (r: Vec<i32>)
    ensures
        ascending(r@),
        forall|rate: i32|
            #[trigger] r@.contains(rate) <==> offers_rate(*display, width, height, rate),
{
    let mut out: Vec<i32> = Vec::new();
    if width == display.mode_width && height == display.mode_height {
        out.push(display.refresh_mhz);
        assert(out@[0] == display.refresh_mhz);
    }
    let mut i: usize = 0;
    while i < display.available_modes.len()
        invariant
            i <= display.available_modes.len(),
            ascending(out@),
            forall|rate: i32| #[trigger]
                out@.contains(rate) <==> (width == display.mode_width && height
                    == display.mode_height && rate == display.refresh_mhz) || exists|k: int|
                    0 <= k < i && (#[trigger] display.available_modes@[k]).width == width
                        && display.available_modes@[k].height == height
                        && display.available_modes@[k].refresh_mhz == rate,
        decreases display.available_modes.len() - i,
    {
        let m = display.available_modes[i];
        assert(display.available_modes@[i as int] == m);
        if m.width == width && m.height == height {
            add_number(&mut out, m.refresh_mhz);
        }
        i += 1;
    }
    out
}

/// A list in ascending order is known by what it holds.
pub proof fn law_options_are_unique(a: Seq<(i32, i32)>, b: Seq<(i32, i32)>)
    requires
        ascending_pairs(a),
        ascending_pairs(b),
        forall|p: (i32, i32)| #[trigger] a.contains(p) <==> b.contains(p),
    ensures
        a == b,
    decreases a.len(),
{
    if a.len() == 0 {
        if b.len() > 0 {
            assert(b.contains(b[0]));
            assert(a.contains(b[0]));
        }
        assert(a =~= b);
    } else {
        assert(a.contains(a.last()));
        assert(b.contains(a.last()));
        assert(b.contains(b.last()));
        assert(a.contains(b.last()));
        let i = choose|i: int| 0 <= i < b.len() && b[i] == a.last();
        let j = choose|j: int| 0 <= j < a.len() && a[j] == b.last();
        assert(a.last() == b.last()) by {
            if i < b.len() - 1 {
                assert(pair_before(b[i], b[b.len() - 1]));
            }
            if j < a.len() - 1 {
                assert(pair_before(a[j], a[a.len() - 1]));
            }
        }
        let x = a.drop_last();
        let y = b.drop_last();
        assert forall|p: (i32, i32)| #[trigger] x.contains(p) <==> y.contains(p) by {
            if x.contains(p) {
                let k = choose|k: int| 0 <= k < x.len() && x[k] == p;
                assert(a[k] == p);
                assert(pair_before(a[k], a[a.len() - 1]));
                assert(a.contains(p));
                let l = choose|l: int| 0 <= l < b.len() && b[l] == p;
                assert(l < b.len() - 1);
                assert(y[l] == p);
            }
            if y.contains(p) {
                let k = choose|k: int| 0 <= k < y.len() && y[k] == p;
                assert(b[k] == p);
                assert(pair_before(b[k], b[b.len() - 1]));
                assert(b.contains(p));
                assert(a.contains(p));
                let l = choose|l: int| 0 <= l < a.len() && a[l] == p;
                assert(l < a.len() - 1);
                assert(x[l] == p);
            }
        }
        law_options_are_unique(x, y);
        assert(a =~= x.push(a.last()));
        assert(b =~= y.push(b.last()));
    }
}

/// The position of an item in a list, or 0.
pub open spec fn place_of<T>(list: Seq<T>, item: T, from: int) -> u32
    decreases list.len() - from,
{
    if from < 0 || from >= list.len() {
        0
    } else if list[from] == item {
        from as u32
    } else {
        place_of(list, item, from + 1)
    }
}

/// The position of the size of a display in the menu of sizes.
pub fn resolution_position(options: &Vec<(i32, i32)>, size: (i32, i32)) -> (r: u32)
    requires
        options.len() <= u32::MAX,
    ensures
        r == place_of(options@, size, 0),
{
    let mut i: usize = 0;
    while i < options.len()
        invariant
            i <= options.len() <= u32::MAX,
            place_of(options@, size, 0) == place_of(options@, size, i as int),
        decreases options.len() - i,
    {
        if options[i].0 == size.0 && options[i].1 == size.1 {
            return i as u32;
        }
        i += 1;
    }
    0
}

/// The position of the rate of a display in the menu of rates.
pub fn refresh_position(options: &Vec<i32>, rate: i32) -> (r: u32)
    requires
        options.len() <= u32::MAX,
    ensures
        r == place_of(options@, rate, 0),
{
    let mut i: usize = 0;
    while i < options.len()
        invariant
            i <= options.len() <= u32::MAX,
            place_of(options@, rate, 0) == place_of(options@, rate, i as int),
        decreases options.len() - i,
    {
        if options[i] == rate {
            return i as u32;
        }
        i += 1;
    }
    0
}

/// The modes have one of this size and rate.
pub open spec fn has_mode(modes: Seq<DisplayModeConfig>, w: i32, h: i32, rate: i32) -> bool {
    modes.contains(DisplayModeConfig { width: w, height: h, refresh_mhz: rate })
}

/// The greatest rate of the modes of this size.
pub open spec fn best_rate(modes: Seq<DisplayModeConfig>, w: i32, h: i32) -> Option<i32>
    decreases modes.len(),
{
    if modes.len() == 0 {
        None
    } else {
        let before = best_rate(modes.drop_last(), w, h);
        let m = modes.last();
        if m.width != w || m.height != h {
            before
        } else {
            match before {
                Some(rate) => if rate > m.refresh_mhz {
                    before
                } else {
                    Some(m.refresh_mhz)
                },
                None => Some(m.refresh_mhz),
            }
        }
    }
}

/// The rate of a display that is set to a size: the one it has where there is
/// such a mode, else the greatest of the size, where that has a mode at all.
pub open spec fn rate_at(modes: Seq<DisplayModeConfig>, w: i32, h: i32, rate: i32) -> i32 {
    if has_mode(modes, w, h, rate) {
        rate
    } else {
        match best_rate(modes, w, h) {
            Some(best) => best,
            None => rate,
        }
    }
}

fn find_rate(modes: &Vec<DisplayModeConfig>, w: i32, h: i32, rate: i32) -> (r: i32)
    ensures
        r == rate_at(modes@, w, h, rate),
{
    let mut best: Option<i32> = None;
    let mut i: usize = 0;
    let ghost wanted = DisplayModeConfig { width: w, height: h, refresh_mhz: rate };
    while i < modes.len()
        invariant
            i <= modes.len(),
            wanted == (DisplayModeConfig { width: w, height: h, refresh_mhz: rate }),
            best == best_rate(modes@.take(i as int), w, h),
            forall|k: int| 0 <= k < i ==> modes@[k] != wanted,
        decreases modes.len() - i,
    {
        let m = modes[i];
        proof {
            assert(modes@.take(i + 1).drop_last() =~= modes@.take(i as int));
            assert(modes@.take(i + 1).last() == m);
        }
        if m.width == w && m.height == h {
            if m.refresh_mhz == rate {
                assert(modes@[i as int] == wanted);
                return rate;
            }
            best = match best {
                Some(found) => if found > m.refresh_mhz {
                    Some(found)
                } else {
                    Some(m.refresh_mhz)
                },
                None => Some(m.refresh_mhz),
            };
        }
        i += 1;
    }
    assert(modes@.take(i as int) =~= modes@);
    match best {
        Some(found) => found,
        None => rate,
    }
}

/// A size was chosen for a display. `modes` are the modes that it had when the
/// menu was made.
pub fn select_resolution(
    displays: &mut Vec<DisplayConfig>,
    index: usize,
    modes: &Vec<DisplayModeConfig>,
    size: (i32, i32),
)
    ensures
        final(displays)@ == if index < old(displays).len() {
            let d = old(displays)@[index as int];
            old(displays)@.update(
                index as int,
                DisplayConfig {
                    mode_width: size.0,
                    mode_height: size.1,
                    refresh_mhz: rate_at(modes@, size.0, size.1, d.refresh_mhz),
                    ..d
                },
            )
        } else {
            old(displays)@
        },
{
    if index < displays.len() {
        let rate: i32 = find_rate(modes, size.0, size.1, displays[index].refresh_mhz);
        displays[index].mode_width = size.0;
        displays[index].mode_height = size.1;
        displays[index].refresh_mhz = rate;
    }
}

/// A rate was chosen for a display.
pub fn select_refresh(displays: &mut Vec<DisplayConfig>, index: usize, refresh_mhz: i32)
    ensures
        final(displays)@ == if index < old(displays).len() {
            old(displays)@.update(
                index as int,
                DisplayConfig { refresh_mhz, ..old(displays)@[index as int] },
            )
        } else {
            old(displays)@
        },
{
    if index < displays.len() {
        displays[index].refresh_mhz = refresh_mhz;
    }
}

/// An orientation was chosen for a display.
pub fn select_orientation(displays: &mut Vec<DisplayConfig>, index: usize, selected: u32)
    ensures
        final(displays).len() == old(displays).len(),
        forall|i: int|
            0 <= i < old(displays).len() && i != index ==> final(displays)[i] == old(displays)[i],
        index < old(displays).len() ==> {
            let d = final(displays)[index as int];
            &&& d.transform@ == orientation_name(selected)
            &&& d == (DisplayConfig { transform: d.transform, ..old(displays)[index as int] })
        },
{
    if index < displays.len() {
        displays[index].transform = transform_from_index(selected).to_owned();
    }
}

/// A scale was chosen for a display.
pub fn select_scale(displays: &mut Vec<DisplayConfig>, index: usize, scale: u64)
    ensures
        final(displays)@ == if index < old(displays).len() {
            old(displays)@.update(
                index as int,
                DisplayConfig { scale, ..old(displays)@[index as int] },
            )
        } else {
            old(displays)@
        },
{
    if index < displays.len() {
        displays[index].scale = scale;
    }
}

/// The displays after one was made the primary one, or no longer is: there is
/// at most one.
pub open spec fn with_primary(displays: Seq<DisplayConfig>, index: int, active: bool) -> Seq<
    DisplayConfig,
> {
    Seq::new(
        displays.len(),
        |i: int|
            DisplayConfig {
                primary: if i == index {
                    active
                } else {
                    displays[i].primary && !active
                },
                ..displays[i]
            },
    )
}

/// A display was made the primary one, or no longer is.
pub fn set_primary(displays: &mut Vec<DisplayConfig>, index: usize, active: bool)
    ensures
        final(displays)@ == with_primary(old(displays)@, index as int, active),
{
    let ghost before = displays@;
    let mut i: usize = 0;
    while i < displays.len()
        invariant
            i <= displays.len(),
            displays.len() == before.len(),
            forall|k: int|
                0 <= k < i ==> #[trigger] displays@[k] == with_primary(
                    before,
                    index as int,
                    active,
                )[k],
            forall|k: int| i <= k < before.len() ==> #[trigger] displays@[k] == before[k],
        decreases displays.len() - i,
    {
        let primary = if i == index {
            active
        } else {
            displays[i].primary && !active
        };
        displays[i].primary = primary;
        i += 1;
    }
    assert(displays@ =~= with_primary(before, index as int, active));
}

/// At most one display is the primary one.
pub open spec fn one_primary(displays: Seq<DisplayConfig>) -> bool {
    forall|i: int, j: int|
        0 <= i < displays.len() && 0 <= j < displays.len() && (#[trigger] displays[i]).primary && (
        #[trigger] displays[j]).primary ==> i == j
}

/// Whichever switch is turned, there is at most one primary display, if there
/// was at most one or one was made it.
pub proof fn law_one_primary(displays: Seq<DisplayConfig>, index: int, active: bool)
    requires
        0 <= index < displays.len(),
        active || one_primary(displays),
    ensures
        one_primary(with_primary(displays, index, active)),
        with_primary(displays, index, active)[index].primary == active,
{
    let out = with_primary(displays, index, active);
    assert forall|i: int, j: int|
        0 <= i < out.len() && 0 <= j < out.len() && (#[trigger] out[i]).primary && (
        #[trigger] out[j]).primary implies i == j by {
        if !active {
            assert(displays[i].primary || i == index);
            assert(displays[j].primary || j == index);
        }
    }
}

/// A display was turned on or off.
pub fn set_enabled(displays: &mut Vec<DisplayConfig>, index: usize, active: bool)
    ensures
        final(displays)@ == if index < old(displays).len() {
            old(displays)@.update(
                index as int,
                DisplayConfig { enabled: active, ..old(displays)@[index as int] },
            )
        } else {
            old(displays)@
        },
{
    if index < displays.len() {
        displays[index].enabled = active;
    }
}

/// A colour profile was chosen for a display.
pub fn select_color_profile(displays: &mut Vec<DisplayConfig>, index: usize, selected: u32)
    ensures
        final(displays)@ == if index < old(displays).len() {
            old(displays)@.update(
                index as int,
                DisplayConfig {
                    color_profile: color_profile_at(selected),
                    ..old(displays)@[index as int]
                },
            )
        } else {
            old(displays)@
        },
{
    if index < displays.len() {
        displays[index].color_profile = selected_display_color_profile(selected);
    }
}

/// A profile file was chosen for a display, or given up.
pub fn set_icc_profile(displays: &mut Vec<DisplayConfig>, index: usize, path: Option<String>)
    ensures
        final(displays)@ == if index < old(displays).len() {
            old(displays)@.update(
                index as int,
                DisplayConfig { icc_profile_path: path, ..old(displays)@[index as int] },
            )
        } else {
            old(displays)@
        },
{
    if index < displays.len() {
        displays[index].icc_profile_path = path;
    }
}

// ---------------------------------------------------------------------------
// HDR requests
// ---------------------------------------------------------------------------

/// A display after its HDR switch was turned: only a display that can do HDR
/// asks for it, and one that does not ask for it does not show it.
pub open spec fn with_hdr(d: DisplayConfig, active: bool) -> DisplayConfig {
    let requested = d.hdr_supported && active;
    DisplayConfig { hdr_requested: requested, hdr_enabled: d.hdr_enabled && requested, ..d }
}

/// The HDR switch of a display was turned.
pub fn set_hdr_request(displays: &mut Vec<DisplayConfig>, index: usize, active: bool)
    ensures
        final(displays)@ == if index < old(displays).len() {
            old(displays)@.update(index as int, with_hdr(old(displays)@[index as int], active))
        } else {
            old(displays)@
        },
{
    if index < displays.len() {
        let requested = displays[index].hdr_supported && active;
        displays[index].hdr_requested = requested;
        if !requested {
            displays[index].hdr_enabled = false;
        }
    }
}

/// Whether the HDR switch of a display is on.
pub fn hdr_switch_active(display: &DisplayConfig) -> (r: bool)
    ensures
        r == (display.hdr_requested || display.hdr_enabled),
{
    display.hdr_requested || display.hdr_enabled
}

/// A display that is on and can do HDR.
pub open spec fn capable(d: DisplayConfig) -> bool {
    d.enabled && d.hdr_supported
}

/// How many displays are on and can do HDR.
pub open spec fn capable_count(displays: Seq<DisplayConfig>) -> nat
    decreases displays.len(),
{
    if displays.len() == 0 {
        0
    } else {
        capable_count(displays.drop_last()) + if capable(displays.last()) {
            1nat
        } else {
            0
        }
    }
}

/// How many of them ask for HDR.
pub open spec fn requested_count(displays: Seq<DisplayConfig>) -> nat
    decreases displays.len(),
{
    if displays.len() == 0 {
        0
    } else {
        requested_count(displays.drop_last()) + if capable(displays.last())
            && displays.last().hdr_requested {
            1nat
        } else {
            0
        }
    }
}

/// The line below the button that applies HDR to all displays.
pub open spec fn all_hdr_subtitle(able: nat, requested: nat) -> Seq<char> {
    if able == 0 {
        "No active HDR10-capable displays were detected"@
    } else if requested == 0 {
        "Turn on HDR output request for one or more displays first"@
    } else if requested < able {
        "Apply HDR10 to all "@ + dec(able)
            + " capable displays so they share the same encode; mixed HDR10/SDR will not match"@
    } else {
        "Apply HDR10 to "@ + dec(able) + " capable display"@ + (if able == 1 {
            ""@
        } else {
            "s"@
        })
    }
}

/// The line below the button that applies HDR to all displays, and whether the
/// button can be used.
pub fn refresh_all_outputs_hdr_control(displays: &Vec<DisplayConfig>) -> (r: (String, bool))
    ensures
        r.0@ == all_hdr_subtitle(capable_count(displays@), requested_count(displays@)),
        r.1 == (requested_count(displays@) > 0),
{
    let mut able: u64 = 0;
    let mut requested: u64 = 0;
    let mut i: usize = 0;
    while i < displays.len()
        invariant
            i <= displays.len(),
            able == capable_count(displays@.take(i as int)),
            requested == requested_count(displays@.take(i as int)),
            requested <= able <= i,
        decreases displays.len() - i,
    {
        proof {
            assert(displays@.take(i + 1).drop_last() =~= displays@.take(i as int));
            assert(displays@.take(i + 1).last() == displays@[i as int]);
        }
        if displays[i].enabled && displays[i].hdr_supported {
            able += 1;
            if displays[i].hdr_requested {
                requested += 1;
            }
        }
        i += 1;
    }
    assert(displays@.take(i as int) =~= displays@);
    let subtitle = if able == 0 {
        "No active HDR10-capable displays were detected".to_owned()
    } else if requested == 0 {
        "Turn on HDR output request for one or more displays first".to_owned()
    } else if requested < able {
        "Apply HDR10 to all ".to_owned().concat(decimal(able).as_str()).concat(
            " capable displays so they share the same encode; mixed HDR10/SDR will not match",
        )
    } else {
        "Apply HDR10 to ".to_owned().concat(decimal(able).as_str()).concat(
            " capable display",
        ).concat(
            if able == 1 {
                ""
            } else {
                "s"
            },
        )
    };
    (subtitle, requested > 0)
}

/// A capable display asks for HDR.
pub open spec fn any_requested(displays: Seq<DisplayConfig>) -> bool {
    exists|i: int|
        0 <= i < displays.len() && capable(#[trigger] displays[i]) && displays[i].hdr_requested
}

/// Every capable display asks for HDR where one of them does.
pub open spec fn aligned(displays: Seq<DisplayConfig>) -> Seq<DisplayConfig> {
    Seq::new(
        displays.len(),
        |i: int|
            DisplayConfig {
                hdr_requested: displays[i].hdr_requested || (any_requested(displays) && capable(
                    displays[i],
                )),
                ..displays[i]
            },
    )
}

/// Makes every capable display ask for HDR where one of them does. Returns
/// whether that changed anything.
pub fn align_hdr_requests_across_capable_outputs(displays: &mut Vec<DisplayConfig>) -> (r: bool)
    ensures
        final(displays)@ == aligned(old(displays)@),
        r == (any_requested(old(displays)@) && exists|i: int|
            0 <= i < old(displays).len() && capable(#[trigger] old(displays)@[i]) && !old(
                displays,
            )@[i].hdr_requested),
{
    let ghost before = displays@;
    let mut any = false;
    let mut i: usize = 0;
    while i < displays.len()
        invariant
            i <= displays.len(),
            displays@ == before,
            any == exists|k: int|
                0 <= k < i && capable(#[trigger] before[k]) && before[k].hdr_requested,
        decreases displays.len() - i,
    {
        assert(displays@[i as int] == before[i as int]);
        if displays[i].enabled && displays[i].hdr_supported && displays[i].hdr_requested {
            assert(capable(before[i as int]));
            any = true;
        }
        i += 1;
    }
    if !any {
        assert(!any_requested(before));
        assert(displays@ =~= aligned(before));
        return false;
    }
    assert(any_requested(before));
    let mut changed = false;
    let mut i: usize = 0;
    while i < displays.len()
        invariant
            i <= displays.len(),
            displays.len() == before.len(),
            any_requested(before),
            changed == exists|k: int|
                0 <= k < i && capable(#[trigger] before[k]) && !before[k].hdr_requested,
            forall|k: int| 0 <= k < i ==> #[trigger] displays@[k] == aligned(before)[k],
            forall|k: int| i <= k < before.len() ==> #[trigger] displays@[k] == before[k],
        decreases displays.len() - i,
    {
        assert(displays@[i as int] == before[i as int]);
        if displays[i].enabled && displays[i].hdr_supported && !displays[i].hdr_requested {
            assert(capable(before[i as int]));
            displays[i].hdr_requested = true;
            changed = true;
        }
        assert(displays@[i as int] == aligned(before)[i as int]);
        i += 1;
    }
    assert(displays@ =~= aligned(before));
    changed
}

/// Once the requests are aligned they stay so, and all capable displays agree.
pub proof fn law_align_once(displays: Seq<DisplayConfig>, i: int, j: int)
    requires
        0 <= i < displays.len(),
        0 <= j < displays.len(),
    ensures
        aligned(aligned(displays)) == aligned(displays),
        capable(displays[i]) && capable(displays[j]) ==> aligned(displays)[i].hdr_requested
            == aligned(displays)[j].hdr_requested,
{
    let out = aligned(displays);
    if any_requested(displays) {
        let k = choose|k: int|
            0 <= k < displays.len() && capable(#[trigger] displays[k]) && displays[k].hdr_requested;
        assert(capable(out[k]) && out[k].hdr_requested);
    } else {
        if any_requested(out) {
            let k = choose|k: int|
                0 <= k < out.len() && capable(#[trigger] out[k]) && out[k].hdr_requested;
            assert(capable(displays[k]) && displays[k].hdr_requested);
        }
        if capable(displays[i]) {
            assert(!displays[i].hdr_requested);
        }
        if capable(displays[j]) {
            assert(!displays[j].hdr_requested);
        }
    }
    assert(aligned(out) =~= out);
}

/// What is said after HDR was applied to all displays.
pub fn apply_hdr_message(result: &Result<(), String>) -> (r: String)
    ensures
        r@ == match *result {
            Ok(_) =>
                "HDR10 request sent to focaldesk-desktop; waiting for KMS validation\u{2026}"@,
            Err(err) => "Could not apply HDR10 through focaldesk-desktop: "@ + err@,
        },
{
    match result {
        Ok(_) =>
            "HDR10 request sent to focaldesk-desktop; waiting for KMS validation\u{2026}".to_owned(),
        Err(err) => "Could not apply HDR10 through focaldesk-desktop: ".to_owned().concat(
            err.as_str(),
        ),
    }
}

// ---------------------------------------------------------------------------
// What the compositor reports
// ---------------------------------------------------------------------------

/// What the compositor reports of an output.
#[derive(Debug)]
pub struct DisplayRuntimeOutputStatus {
    pub connector: String,
    pub icc_lut_fallback_active: bool,
    pub wide_gamut_active: bool,
    pub hdr_supported: bool,
    pub hdr_requested: bool,
    pub hdr_active: bool,
    pub exclusive_hdr_phase: ExclusiveHdrPhase,
    pub exclusive_hdr_reason: Option<String>,
}

/// The position of the first report on an output, or the number of reports.
pub open spec fn report_on(reports: Seq<DisplayRuntimeOutputStatus>, name: Seq<char>) -> int
    decreases reports.len(),
{
    if reports.len() == 0 || reports[0].connector@ == name {
        0
    } else {
        1 + report_on(reports.drop_first(), name)
    }
}

/// A display after a report on it, or after none came. What it can do and asks
/// for is kept without a report; a request that was changed here and not sent
/// yet is kept in any case.
pub open spec fn reported(
    d: DisplayConfig,
    reports: Seq<DisplayRuntimeOutputStatus>,
    keep_request: bool,
) -> DisplayConfig {
    let at = report_on(reports, d.name@);
    if at < reports.len() {
        let s = reports[at];
        DisplayConfig {
            icc_lut_fallback_active: s.icc_lut_fallback_active,
            wide_gamut_active: s.wide_gamut_active,
            hdr_supported: s.hdr_supported,
            hdr_requested: if keep_request {
                d.hdr_requested
            } else {
                s.hdr_requested
            },
            hdr_enabled: s.hdr_active,
            exclusive_hdr_phase: s.exclusive_hdr_phase,
            exclusive_hdr_reason: s.exclusive_hdr_reason,
            ..d
        }
    } else {
        DisplayConfig {
            icc_lut_fallback_active: false,
            wide_gamut_active: false,
            hdr_enabled: false,
            exclusive_hdr_phase: ExclusiveHdrPhase::Off,
            exclusive_hdr_reason: None,
            ..d
        }
    }
}

fn find_report(reports: &Vec<DisplayRuntimeOutputStatus>, name: &String) -> (r: usize)
    ensures
        r == report_on(reports@, name@),
        r <= reports.len(),
{
    let mut i: usize = 0;
    assert(reports@.skip(0) =~= reports@);
    while i < reports.len() && reports[i].connector != *name
        invariant
            i <= reports.len(),
            report_on(reports@, name@) == i + report_on(reports@.skip(i as int), name@),
        decreases reports.len() - i,
    {
        assert(reports@.skip(i as int)[0] == reports@[i as int]);
        assert(reports@.skip(i as int).drop_first() =~= reports@.skip(i + 1));
        i += 1;
    }
    if i < reports.len() {
        assert(reports@.skip(i as int)[0] == reports@[i as int]);
    }
    i
}

fn apply_report(
    d: &mut DisplayConfig,
    statuses: &Vec<DisplayRuntimeOutputStatus>,
    keep_request: bool,
)
    ensures
        *final(d) == reported(*old(d), statuses@, keep_request),
{
    let at: usize = find_report(statuses, &d.name);
    if at < statuses.len() {
        let s = &statuses[at];
        d.icc_lut_fallback_active = s.icc_lut_fallback_active;
        d.wide_gamut_active = s.wide_gamut_active;
        d.hdr_supported = s.hdr_supported;
        if !keep_request {
            d.hdr_requested = s.hdr_requested;
        }
        d.hdr_enabled = s.hdr_active;
        d.exclusive_hdr_phase = s.exclusive_hdr_phase;
        d.exclusive_hdr_reason = clone_text(&s.exclusive_hdr_reason);
    } else {
        d.icc_lut_fallback_active = false;
        d.wide_gamut_active = false;
        d.hdr_enabled = false;
        d.exclusive_hdr_phase = ExclusiveHdrPhase::Off;
        d.exclusive_hdr_reason = None;
    }
}

/// Takes the compositor's reports over.
pub fn apply_runtime_statuses(
    displays: &mut Vec<DisplayConfig>,
    statuses: &Vec<DisplayRuntimeOutputStatus>,
    preserve_staged_hdr_requests: bool,
)
    ensures
        final(displays)@ == Seq::new(
            old(displays)@.len(),
            |i: int| reported(old(displays)@[i], statuses@, preserve_staged_hdr_requests),
        ),
{
    let ghost before = displays@;
    let mut i: usize = 0;
    while i < displays.len()
        invariant
            i <= displays.len(),
            displays.len() == before.len(),
            forall|k: int|
                0 <= k < i ==> #[trigger] displays@[k] == reported(
                    before[k],
                    statuses@,
                    preserve_staged_hdr_requests,
                ),
            forall|k: int| i <= k < before.len() ==> #[trigger] displays@[k] == before[k],
        decreases displays.len() - i,
    {
        assert(displays@[i as int] == before[i as int]);
        apply_report(&mut displays[i], statuses, preserve_staged_hdr_requests);
        assert(displays@[i as int] == reported(
            before[i as int],
            statuses@,
            preserve_staged_hdr_requests,
        ));
        i += 1;
    }
    assert(displays@ =~= Seq::new(
        before.len(),
        |i: int| reported(before[i], statuses@, preserve_staged_hdr_requests),
    ));
}

/// A report never changes what was set here: name, modes, place, scale,
/// orientation and profiles stay, and a staged request too.
pub proof fn law_report_keeps_settings(
    d: DisplayConfig,
    reports: Seq<DisplayRuntimeOutputStatus>,
    keep_request: bool,
)
    ensures
        ({
            let r = reported(d, reports, keep_request);
            &&& r.name == d.name && r.enabled == d.enabled
            &&& r.mode_width == d.mode_width && r.mode_height == d.mode_height
            &&& r.refresh_mhz == d.refresh_mhz && r.scale == d.scale
            &&& r.logical_x == d.logical_x && r.logical_y == d.logical_y
            &&& r.primary == d.primary && r.transform == d.transform
            &&& r.color_profile == d.color_profile && r.icc_profile_path == d.icc_profile_path
            &&& r.hdr_appearance == d.hdr_appearance
            &&& keep_request ==> r.hdr_requested == d.hdr_requested
        }),
{
}

// ---------------------------------------------------------------------------
// Requests that were not sent yet
// ---------------------------------------------------------------------------

/// The displays of the panel, and whether an HDR request was changed here and
/// not sent yet.
#[derive(Debug)]
pub struct StagedDisplays {
    pub displays: Vec<DisplayConfig>,
    pub dirty: bool,
}

/// The value of [`StagedDisplays`].
pub ghost struct StagedView {
    pub displays: Seq<DisplayConfig>,
    pub dirty: bool,
}

impl View for StagedDisplays {
    type V = StagedView;

    open spec fn view(&self) -> StagedView {
        StagedView { displays: self.displays@, dirty: self.dirty }
    }
}

/// What happens to the requests.
pub ghost enum StagedEvent {
    /// A switch was turned; in a bulk update, by the panel itself.
    Switch { index: int, active: bool, bulk: bool },
    /// The compositor reports.
    Report { statuses: Seq<DisplayRuntimeOutputStatus> },
    /// The requests are aligned, to be sent.
    Apply,
    /// They were sent, or not.
    Applied { sent: bool },
}

/// The displays after an event.
pub open spec fn staged_after(s: StagedView, ev: StagedEvent) -> StagedView {
    match ev {
        StagedEvent::Switch { index, active, bulk } => if bulk {
            s
        } else {
            StagedView {
                displays: if 0 <= index < s.displays.len() {
                    s.displays.update(index, with_hdr(s.displays[index], active))
                } else {
                    s.displays
                },
                dirty: true,
            }
        },
        StagedEvent::Report { statuses } => StagedView {
            displays: Seq::new(
                s.displays.len(),
                |i: int| reported(s.displays[i], statuses, s.dirty),
            ),
            ..s
        },
        StagedEvent::Apply => StagedView { displays: aligned(s.displays), ..s },
        StagedEvent::Applied { sent } => StagedView { dirty: s.dirty && !sent, ..s },
    }
}

/// The displays after several events.
pub open spec fn staged_by(s: StagedView, events: Seq<StagedEvent>) -> StagedView
    decreases events.len(),
{
    if events.len() == 0 {
        s
    } else {
        staged_after(staged_by(s, events.drop_last()), events.last())
    }
}

impl StagedDisplays {
    /// The displays of the panel with what the compositor reports of them;
    /// nothing was changed yet.
    pub fn new(displays: Vec<DisplayConfig>, statuses: &Vec<DisplayRuntimeOutputStatus>) -> (r:
        StagedDisplays)
        ensures
            r@ == staged_after(
                (StagedView { displays: displays@, dirty: false }),
                (StagedEvent::Report { statuses: statuses@ }),
            ),
    {
        let mut displays = displays;
        apply_runtime_statuses(&mut displays, statuses, false);
        StagedDisplays { displays, dirty: false }
    }

    /// The HDR switch of a display was turned, by hand or in a bulk update.
    pub fn on_switch(&mut self, index: usize, active: bool, bulk: bool)
        ensures
            final(self)@ == staged_after(
                old(self)@,
                (StagedEvent::Switch { index: index as int, active, bulk }),
            ),
    {
        if !bulk {
            set_hdr_request(&mut self.displays, index, active);
            self.dirty = true;
        }
    }

    /// The compositor reports.
    pub fn on_report(&mut self, statuses: &Vec<DisplayRuntimeOutputStatus>)
        ensures
            final(self)@ == staged_after(
                old(self)@,
                (StagedEvent::Report { statuses: statuses@ }),
            ),
    {
        let keep = self.dirty;
        apply_runtime_statuses(&mut self.displays, statuses, keep);
    }

    /// The requests are to be sent: they are aligned first. Returns what the
    /// compositor is told.
    pub fn on_apply(&mut self) -> (r: Vec<OutputConfig>)
        ensures
            final(self)@ == staged_after(old(self)@, StagedEvent::Apply),
            r.len() == final(self)@.displays.len(),
            forall|i: int|
                0 <= i < r.len() ==> describes(#[trigger] r@[i], final(self)@.displays[i]),
    {
        align_hdr_requests_across_capable_outputs(&mut self.displays);
        display_outputs(&self.displays)
    }

    /// They were sent, or not. Returns what is said.
    pub fn on_applied(&mut self, result: &Result<(), String>) -> (r: String)
        ensures
            final(self)@ == staged_after(
                old(self)@,
                (StagedEvent::Applied { sent: result is Ok }),
            ),
            r@ == match *result {
                Ok(_) =>
                    "HDR10 request sent to focaldesk-desktop; waiting for KMS validation\u{2026}"@,
                Err(err) => "Could not apply HDR10 through focaldesk-desktop: "@ + err@,
            },
    {
        if result.is_ok() {
            self.dirty = false;
        }
        apply_hdr_message(result)
    }
}

/// Only a switch that is turned by hand marks requests as changed, and only
/// requests that were sent are no longer marked.
pub proof fn law_only_sending_settles(s: StagedView, ev: StagedEvent)
    ensures
        s.dirty && !staged_after(s, ev).dirty ==> ev == (StagedEvent::Applied { sent: true }),
        !s.dirty && staged_after(s, ev).dirty ==> ev is Switch && !ev->Switch_bulk,
        ev is Switch && !ev->Switch_bulk ==> staged_after(s, ev).dirty,
{
}

/// An HDR request that was turned here survives every report, until it is
/// applied or turned again.
pub proof fn law_staged_request_survives(
    s: StagedView,
    index: int,
    active: bool,
    events: Seq<StagedEvent>,
)
    requires
        0 <= index < s.displays.len(),
        forall|k: int|
            0 <= k < events.len() ==> match #[trigger] events[k] {
                StagedEvent::Switch { index: other, bulk, .. } => bulk || other != index,
                StagedEvent::Report { .. } => true,
                StagedEvent::Apply => false,
                StagedEvent::Applied { sent } => !sent,
            },
    ensures
        ({
            let turned = staged_after(s, StagedEvent::Switch { index, active, bulk: false });
            let later = staged_by(turned, events);
            &&& later.dirty
            &&& later.displays.len() == s.displays.len()
            &&& later.displays[index].hdr_requested == (s.displays[index].hdr_supported && active)
        }),
    decreases events.len(),
{
    if events.len() > 0 {
        let front = events.drop_last();
        assert forall|k: int| 0 <= k < front.len() implies match #[trigger] front[k] {
            StagedEvent::Switch { index: other, bulk, .. } => bulk || other != index,
            StagedEvent::Report { .. } => true,
            StagedEvent::Apply => false,
            StagedEvent::Applied { sent } => !sent,
        } by {
            assert(front[k] == events[k]);
        }
        law_staged_request_survives(s, index, active, front);
        assert(events[events.len() - 1] == events.last());
    }
}

// ---------------------------------------------------------------------------
// Exclusive HDR
// ---------------------------------------------------------------------------

/// What is written down of an attempt at exclusive HDR.
#[derive(Debug)]
pub struct ExclusiveHdrState {
    pub phase: ExclusiveHdrPhase,
    pub connector: Option<String>,
    pub reason: Option<String>,
    pub session_id: Option<String>,
}

/// The attempt in words.
pub open spec fn exclusive_text(phase: ExclusiveHdrPhase, reason: Option<Seq<char>>) -> Seq<char> {
    match phase {
        ExclusiveHdrPhase::Off =>
            "Restarts into HDR10 on this display and disables every other monitor"@,
        ExclusiveHdrPhase::Disabled => "Exclusive HDR10 is disabled"@,
        ExclusiveHdrPhase::Requested => match reason {
            Some(text) => text,
            None => "Exclusive HDR10 is armed for the next session"@,
        },
        ExclusiveHdrPhase::Starting => "Starting in exclusive SDR safety mode\u{2026}"@,
        ExclusiveHdrPhase::Verifying =>
            "Verifying HDR10 metadata and stable PQ scanout\u{2026}"@,
        ExclusiveHdrPhase::Active => "HDR10 verified active; other monitors are disabled"@,
        ExclusiveHdrPhase::Failed => "Previous attempt failed: "@ + (match reason {
            Some(text) => text,
            None => "unknown safety check failure"@,
        }),
    }
}

/// The attempt in words.
pub fn exclusive_hdr_status_text(phase: ExclusiveHdrPhase, reason: &Option<String>) -> (r: String)
    ensures
        r@ == exclusive_text(phase, opt_view(*reason)),
{
    match phase {
        ExclusiveHdrPhase::Off =>
            "Restarts into HDR10 on this display and disables every other monitor".to_owned(),
        ExclusiveHdrPhase::Disabled => "Exclusive HDR10 is disabled".to_owned(),
        ExclusiveHdrPhase::Requested => match reason {
            Some(text) => text.clone(),
            None => "Exclusive HDR10 is armed for the next session".to_owned(),
        },
        ExclusiveHdrPhase::Starting => "Starting in exclusive SDR safety mode\u{2026}".to_owned(),
        ExclusiveHdrPhase::Verifying =>
            "Verifying HDR10 metadata and stable PQ scanout\u{2026}".to_owned(),
        ExclusiveHdrPhase::Active =>
            "HDR10 verified active; other monitors are disabled".to_owned(),
        ExclusiveHdrPhase::Failed => match reason {
            Some(text) => "Previous attempt failed: ".to_owned().concat(text.as_str()),
            None => "Previous attempt failed: ".to_owned().concat("unknown safety check failure"),
        },
    }
}

/// The phase of an output: that of the attempt where it is for this output.
pub open spec fn phase_for(state: ExclusiveHdrState, connector: Seq<char>) -> ExclusiveHdrPhase {
    if opt_view(state.connector) == Some(connector) {
        state.phase
    } else {
        ExclusiveHdrPhase::Off
    }
}

fn is_for(state: &ExclusiveHdrState, connector: &str) -> (r: bool)
    ensures
        r == (opt_view(state.connector) == Some(connector@)),
{
    match &state.connector {
        Some(name) => same(name.as_str(), connector),
        None => false,
    }
}

/// The phase of an output.
pub fn exclusive_phase(state: &ExclusiveHdrState, connector: &str) -> (r: ExclusiveHdrPhase)
    ensures
        r == phase_for(*state, connector@),
{
    if is_for(state, connector) {
        state.phase
    } else {
        ExclusiveHdrPhase::Off
    }
}

/// What the button of exclusive HDR says.
pub fn exclusive_button_label(phase: ExclusiveHdrPhase, has_reason: bool) -> (r: &'static str)
    ensures
        r@ == match phase {
            ExclusiveHdrPhase::Active => "Disable & Restart"@,
            ExclusiveHdrPhase::Requested => if has_reason {
                "Log Out Manually"@
            } else {
                "Restarting\u{2026}"@
            },
            ExclusiveHdrPhase::Starting => "Restarting\u{2026}"@,
            ExclusiveHdrPhase::Verifying => "Verifying\u{2026}"@,
            _ => "Restart & Try HDR10"@,
        },
{
    match phase {
        ExclusiveHdrPhase::Active => "Disable & Restart",
        ExclusiveHdrPhase::Requested => if has_reason {
            "Log Out Manually"
        } else {
            "Restarting\u{2026}"
        },
        ExclusiveHdrPhase::Starting => "Restarting\u{2026}",
        ExclusiveHdrPhase::Verifying => "Verifying\u{2026}",
        _ => "Restart & Try HDR10",
    }
}

/// Whether the button of exclusive HDR can be used: not while an attempt is
/// under way.
pub fn exclusive_button_sensitive(phase: ExclusiveHdrPhase) -> (r: bool)
    ensures
        r == !(phase == ExclusiveHdrPhase::Requested || phase == ExclusiveHdrPhase::Starting
            || phase == ExclusiveHdrPhase::Verifying),
{
    match phase {
        ExclusiveHdrPhase::Requested => false,
        ExclusiveHdrPhase::Starting => false,
        ExclusiveHdrPhase::Verifying => false,
        _ => true,
    }
}

/// What the HDR row says while an attempt is known; nothing new where none is.
pub fn exclusive_row_subtitle(phase: ExclusiveHdrPhase) -> (r: Option<&'static str>)
    ensures
        match phase {
            ExclusiveHdrPhase::Requested => r is Some && r->Some_0@
                == "Starting exclusive HDR10\u{2026}"@,
            ExclusiveHdrPhase::Starting => r is Some && r->Some_0@
                == "Starting exclusive HDR10\u{2026}"@,
            ExclusiveHdrPhase::Verifying => r is Some && r->Some_0@
                == "Verifying HDR10 stability\u{2026}"@,
            ExclusiveHdrPhase::Active => r is Some && r->Some_0@ == "Active now"@,
            ExclusiveHdrPhase::Failed => r is Some && r->Some_0@ == "Failed; restored safe SDR"@,
            ExclusiveHdrPhase::Off => r is None,
            ExclusiveHdrPhase::Disabled => r is None,
        },
{
    match phase {
        ExclusiveHdrPhase::Requested => Some("Starting exclusive HDR10\u{2026}"),
        ExclusiveHdrPhase::Starting => Some("Starting exclusive HDR10\u{2026}"),
        ExclusiveHdrPhase::Verifying => Some("Verifying HDR10 stability\u{2026}"),
        ExclusiveHdrPhase::Active => Some("Active now"),
        ExclusiveHdrPhase::Failed => Some("Failed; restored safe SDR"),
        ExclusiveHdrPhase::Off => None,
        ExclusiveHdrPhase::Disabled => None,
    }
}

/// The phase that the button of an output leads to.
pub open spec fn toggled_phase(phase: ExclusiveHdrPhase) -> ExclusiveHdrPhase {
    if phase == ExclusiveHdrPhase::Active {
        ExclusiveHdrPhase::Disabled
    } else {
        ExclusiveHdrPhase::Requested
    }
}

/// The button of exclusive HDR was pressed: an active attempt of the output is
/// given up, else one is asked for. Returns what to write down, and what to
/// say once that is done.
pub fn toggle_exclusive_hdr(current: &ExclusiveHdrState, connector: &str) -> (r: (
    ExclusiveHdrState,
    &'static str,
))
    ensures
        r.0.phase == toggled_phase(phase_for(*current, connector@)),
        phase_for(r.0, connector@) == r.0.phase,
        ({
            let disabling = phase_for(*current, connector@) == ExclusiveHdrPhase::Active;
            &&& r.0.phase == if disabling {
                ExclusiveHdrPhase::Disabled
            } else {
                ExclusiveHdrPhase::Requested
            }
            &&& opt_view(r.0.connector) == Some(connector@)
            &&& r.0.reason is None
            &&& r.0.session_id is None
            &&& r.1@ == if disabling {
                "Normal multi-monitor SDR is armed for the next session"@
            } else {
                "Restarting into guarded exclusive HDR10 verification\u{2026}"@
            }
        }),
{
    let disabling = match exclusive_phase(current, connector) {
        ExclusiveHdrPhase::Active => true,
        _ => false,
    };
    let phase = if disabling {
        ExclusiveHdrPhase::Disabled
    } else {
        ExclusiveHdrPhase::Requested
    };
    let next = ExclusiveHdrState {
        phase,
        connector: Some(connector.to_owned()),
        reason: None,
        session_id: None,
    };
    let message = if disabling {
        "Normal multi-monitor SDR is armed for the next session"
    } else {
        "Restarting into guarded exclusive HDR10 verification\u{2026}"
    };
    (next, message)
}

/// Why the session has to be ended by hand: the compositor answered `response`.
pub fn manual_logout_reason(response: &str) -> (r: String)
    ensures
        r@ == "HDR10 is armed, but automatic restart was unavailable ("@ + response@
            + "). Log out once manually to load the updated compositor."@,
{
    "HDR10 is armed, but automatic restart was unavailable (".to_owned().concat(response).concat(
        "). Log out once manually to load the updated compositor.",
    )
}

/// What the row of exclusive HDR shows next.
#[derive(Debug)]
pub struct ExclusiveReaction {
    pub subtitle: String,
    /// Whether its button can be used; None leaves it as it is.
    pub usable: Option<bool>,
    /// What its button says; None leaves it as it is.
    pub label: Option<&'static str>,
}

/// What the button asked for was to be written down: `message` is shown, or
/// why that failed. The session is to be ended where it was written.
pub fn on_exclusive_saved(message: &str, saved: &Result<(), String>) -> (r: ExclusiveReaction)
    ensures
        r.label is None,
        match *saved {
            Ok(_) => r.subtitle@ == message@ && r.usable == Some(false),
            Err(err) => r.subtitle@ == "Could not arm exclusive HDR10: "@ + err@
                && r.usable is None,
        },
{
    match saved {
        Ok(_) => ExclusiveReaction {
            subtitle: message.to_owned(),
            usable: Some(false),
            label: None,
        },
        Err(err) => ExclusiveReaction {
            subtitle: "Could not arm exclusive HDR10: ".to_owned().concat(err.as_str()),
            usable: None,
            label: None,
        },
    }
}

/// The session could not be ended, for `reason`: what to write down then.
pub fn awaiting_logout(next: &ExclusiveHdrState, reason: &str) -> (r: ExclusiveHdrState)
    ensures
        r.phase == next.phase,
        opt_view(r.connector) == opt_view(next.connector),
        opt_view(r.reason) == Some(reason@),
        opt_view(r.session_id) == opt_view(next.session_id),
{
    ExclusiveHdrState {
        phase: next.phase,
        connector: match &next.connector {
            Some(name) => Some(name.clone()),
            None => None,
        },
        reason: Some(reason.to_owned()),
        session_id: match &next.session_id {
            Some(id) => Some(id.clone()),
            None => None,
        },
    }
}

/// That state was to be written down: what the row shows then.
pub fn on_logout_awaited(reason: &str, saved: &Result<(), String>) -> (r: ExclusiveReaction)
    ensures
        r.usable is None,
        match *saved {
            Ok(_) => {
                &&& r.subtitle@ == reason@
                &&& r.label is Some
                &&& r.label->Some_0@ == "Log Out Manually"@
            },
            Err(err) => {
                &&& r.subtitle@ == reason@ + " Could not save restart status: "@ + err@
                &&& r.label is None
            },
        },
{
    match saved {
        Ok(_) => ExclusiveReaction {
            subtitle: reason.to_owned(),
            usable: None,
            label: Some("Log Out Manually"),
        },
        Err(err) => ExclusiveReaction {
            subtitle: reason.to_owned().concat(" Could not save restart status: ").concat(
                err.as_str(),
            ),
            usable: None,
            label: None,
        },
    }
}

// ---------------------------------------------------------------------------
// HDR appearance
// ---------------------------------------------------------------------------

/// The position of the menu at which no preset is chosen.
pub const HDR_APPEARANCE_CUSTOM_PRESET: u32 = 3;

/// 0.05, 0.9, 1.0, 1.1, 203.0, 250.0, 300.0 and 450.0 as bits of singles.
pub const BITS_0_05: u32 = 0x3D4C_CCCD;

pub const BITS_0_90: u32 = 0x3F66_6666;

pub const BITS_1_00: u32 = 0x3F80_0000;

pub const BITS_1_10: u32 = 0x3F8C_CCCD;

pub const BITS_203: u32 = 0x434B_0000;

pub const BITS_250: u32 = 0x437A_0000;

pub const BITS_300: u32 = 0x4396_0000;

pub const BITS_450: u32 = 0x43E1_0000;

/// The presets: neutral, for a bright room, and for a punchy OLED.
pub open spec fn preset_of(selected: u32, neutral: HdrAppearance) -> Option<HdrAppearance> {
    match selected {
        0u32 => Some(neutral),
        1u32 => Some(
            HdrAppearance {
                black_level_nits: Level { bits: BITS_0_05 },
                reference_white_nits: Level { bits: BITS_250 },
                peak_nits: Level { bits: BITS_450 },
                full_frame_peak_nits: Level { bits: BITS_300 },
                saturation: Level { bits: BITS_1_00 },
                midtone_gamma: Level { bits: BITS_0_90 },
            },
        ),
        2u32 => Some(
            HdrAppearance {
                black_level_nits: Level { bits: BITS_0_05 },
                reference_white_nits: Level { bits: BITS_203 },
                peak_nits: Level { bits: BITS_450 },
                full_frame_peak_nits: Level { bits: BITS_300 },
                saturation: Level { bits: BITS_1_10 },
                midtone_gamma: Level { bits: BITS_1_10 },
            },
        ),
        _ => None,
    }
}

/// The preset at a position of its menu; `neutral` is the default appearance.
pub fn hdr_appearance_preset(selected: u32, neutral: HdrAppearance) -> (r: Option<HdrAppearance>)
    ensures
        r == preset_of(selected, neutral),
{
    match selected {
        0 => Some(neutral),
        1 => Some(
            HdrAppearance {
                black_level_nits: Level { bits: BITS_0_05 },
                reference_white_nits: Level { bits: BITS_250 },
                peak_nits: Level { bits: BITS_450 },
                full_frame_peak_nits: Level { bits: BITS_300 },
                saturation: Level { bits: BITS_1_00 },
                midtone_gamma: Level { bits: BITS_0_90 },
            },
        ),
        2 => Some(
            HdrAppearance {
                black_level_nits: Level { bits: BITS_0_05 },
                reference_white_nits: Level { bits: BITS_203 },
                peak_nits: Level { bits: BITS_450 },
                full_frame_peak_nits: Level { bits: BITS_300 },
                saturation: Level { bits: BITS_1_10 },
                midtone_gamma: Level { bits: BITS_1_10 },
            },
        ),
        _ => None,
    }
}

/// All six numbers are equal.
pub open spec fn looks_like(a: HdrAppearance, b: HdrAppearance) -> bool {
    &&& equals(a.black_level_nits.bits, b.black_level_nits.bits)
    &&& equals(a.reference_white_nits.bits, b.reference_white_nits.bits)
    &&& equals(a.peak_nits.bits, b.peak_nits.bits)
    &&& equals(a.full_frame_peak_nits.bits, b.full_frame_peak_nits.bits)
    &&& equals(a.saturation.bits, b.saturation.bits)
    &&& equals(a.midtone_gamma.bits, b.midtone_gamma.bits)
}

fn looks_alike(a: HdrAppearance, b: HdrAppearance) -> (r: bool)
    ensures
        r == looks_like(a, b),
{
    equal(a.black_level_nits.bits, b.black_level_nits.bits) && equal(
        a.reference_white_nits.bits,
        b.reference_white_nits.bits,
    ) && equal(a.peak_nits.bits, b.peak_nits.bits) && equal(
        a.full_frame_peak_nits.bits,
        b.full_frame_peak_nits.bits,
    ) && equal(a.saturation.bits, b.saturation.bits) && equal(
        a.midtone_gamma.bits,
        b.midtone_gamma.bits,
    )
}

/// None of the six is without a value.
pub open spec fn all_numbers(a: HdrAppearance) -> bool {
    looks_like(a, a)
}

/// An appearance is the preset at a position.
pub open spec fn is_preset(appearance: HdrAppearance, selected: u32, neutral: HdrAppearance) -> bool {
    match preset_of(selected, neutral) {
        Some(preset) => looks_like(preset, appearance),
        None => false,
    }
}

/// The first preset that an appearance is, or custom.
pub open spec fn preset_index(appearance: HdrAppearance, neutral: HdrAppearance) -> u32 {
    if is_preset(appearance, 0, neutral) {
        0
    } else if is_preset(appearance, 1, neutral) {
        1
    } else if is_preset(appearance, 2, neutral) {
        2
    } else {
        HDR_APPEARANCE_CUSTOM_PRESET
    }
}

/// The position of an appearance in the menu of presets.
pub fn hdr_appearance_preset_index(appearance: HdrAppearance, neutral: HdrAppearance) -> (r: u32)
    ensures
        r == preset_index(appearance, neutral),
{
    let mut selected: u32 = 0;
    while selected < HDR_APPEARANCE_CUSTOM_PRESET
        invariant
            selected <= 3,
            selected > 0 ==> !is_preset(appearance, 0, neutral),
            selected > 1 ==> !is_preset(appearance, 1, neutral),
            selected > 2 ==> !is_preset(appearance, 2, neutral),
        decreases 3 - selected,
    {
        if let Some(preset) = hdr_appearance_preset(selected, neutral) {
            if looks_alike(preset, appearance) {
                return selected;
            }
        }
        selected += 1;
    }
    HDR_APPEARANCE_CUSTOM_PRESET
}

/// Each preset is recognised, as long as the default holds numbers and is not
/// one of the others.
pub proof fn law_presets_are_recognised(selected: u32, neutral: HdrAppearance)
    requires
        selected < 3,
        all_numbers(neutral),
        !is_preset(neutral, 1, neutral),
        !is_preset(neutral, 2, neutral),
    ensures
        preset_of(selected, neutral) is Some,
        preset_index(preset_of(selected, neutral)->Some_0, neutral) == selected,
        preset_of(HDR_APPEARANCE_CUSTOM_PRESET, neutral) is None,
{
}

/// The calibration patterns.
#[derive(Debug, Clone, Copy, PartialEq, Eq, Structural)]
pub enum HdrCalibrationPattern {
    Off,
    Overview,
    NearBlack,
    ReferenceWhite,
    PeakWindow,
    PeakFullFrame,
}

/// What stands at a position of the menu of patterns.
pub open spec fn pattern_at(selected: u32) -> HdrCalibrationPattern {
    match selected {
        1u32 => HdrCalibrationPattern::Overview,
        2u32 => HdrCalibrationPattern::NearBlack,
        3u32 => HdrCalibrationPattern::ReferenceWhite,
        4u32 => HdrCalibrationPattern::PeakWindow,
        5u32 => HdrCalibrationPattern::PeakFullFrame,
        _ => HdrCalibrationPattern::Off,
    }
}

/// The pattern at a position of its menu.
pub fn hdr_calibration_pattern(selected: u32) -> (r: HdrCalibrationPattern)
    ensures
        r == pattern_at(selected),
        r == match selected {
            1u32 => HdrCalibrationPattern::Overview,
            2u32 => HdrCalibrationPattern::NearBlack,
            3u32 => HdrCalibrationPattern::ReferenceWhite,
            4u32 => HdrCalibrationPattern::PeakWindow,
            5u32 => HdrCalibrationPattern::PeakFullFrame,
            _ => HdrCalibrationPattern::Off,
        },
{
    match selected {
        1 => HdrCalibrationPattern::Overview,
        2 => HdrCalibrationPattern::NearBlack,
        3 => HdrCalibrationPattern::ReferenceWhite,
        4 => HdrCalibrationPattern::PeakWindow,
        5 => HdrCalibrationPattern::PeakFullFrame,
        _ => HdrCalibrationPattern::Off,
    }
}

/// What is said after a pattern was chosen.
pub fn calibration_message(pattern: HdrCalibrationPattern, result: &Result<(), String>) -> (r:
    String)
    ensures
        r@ == match *result {
            Ok(_) => if pattern == HdrCalibrationPattern::Off {
                "Calibration pattern disabled"@
            } else {
                "Calibration target active on the HDR display; select Off when finished"@
            },
            Err(message) => "Calibration unavailable: "@ + message@,
        },
{
    match result {
        Ok(_) => if pattern == HdrCalibrationPattern::Off {
            "Calibration pattern disabled".to_owned()
        } else {
            "Calibration target active on the HDR display; select Off when finished".to_owned()
        },
        Err(message) => "Calibration unavailable: ".to_owned().concat(message.as_str()),
    }
}

#[derive(Debug, Clone, Copy, PartialEq, Eq, Structural)]
pub enum HdrAppearanceField {
    BlackLevel,
    ReferenceWhite,
    Peak,
    FullFramePeak,
    Saturation,
    MidtoneGamma,
}

pub open spec fn raised(a: Level, least: Level) -> Level {
    if below(a.bits, least.bits) {
        least
    } else {
        a
    }
}

pub open spec fn lowered_to(a: Level, most: Level) -> Level {
    if below(most.bits, a.bits) {
        most
    } else {
        a
    }
}

/// An appearance with one field set. The peak follows the two levels below it
/// up, and they follow it down.
pub open spec fn with_field(
    a: HdrAppearance,
    field: HdrAppearanceField,
    value: Level,
) -> HdrAppearance {
    match field {
        HdrAppearanceField::BlackLevel => HdrAppearance { black_level_nits: value, ..a },
        HdrAppearanceField::ReferenceWhite => HdrAppearance {
            reference_white_nits: value,
            peak_nits: raised(a.peak_nits, value),
            ..a
        },
        HdrAppearanceField::Peak => HdrAppearance {
            peak_nits: value,
            reference_white_nits: lowered_to(a.reference_white_nits, value),
            full_frame_peak_nits: lowered_to(a.full_frame_peak_nits, value),
            ..a
        },
        HdrAppearanceField::FullFramePeak => HdrAppearance {
            full_frame_peak_nits: value,
            peak_nits: raised(a.peak_nits, value),
            ..a
        },
        HdrAppearanceField::Saturation => HdrAppearance { saturation: value, ..a },
        HdrAppearanceField::MidtoneGamma => HdrAppearance { midtone_gamma: value, ..a },
    }
}

/// Neither diffuse white nor a full white frame is brighter than the peak.
pub open spec fn ordered_levels(a: HdrAppearance) -> bool {
    !below(a.peak_nits.bits, a.reference_white_nits.bits) && !below(
        a.peak_nits.bits,
        a.full_frame_peak_nits.bits,
    )
}

/// Whatever scale is moved, the levels stay ordered, and the scale has the
/// value that it was moved to.
pub proof fn law_levels_stay_ordered(a: HdrAppearance, field: HdrAppearanceField, value: Level)
    requires
        ordered_levels(a),
    ensures
        ordered_levels(with_field(a, field, value)),
        with_field(with_field(a, field, value), field, value) == with_field(a, field, value),
{
}

/// An appearance with one field set.
pub fn set_appearance_field(a: HdrAppearance, field: HdrAppearanceField, value: Level) -> (r:
    HdrAppearance)
    ensures
        r == with_field(a, field, value),
{
    let mut out = a;
    match field {
        HdrAppearanceField::BlackLevel => {
            out.black_level_nits = value;
        },
        HdrAppearanceField::ReferenceWhite => {
            out.reference_white_nits = value;
            if less(out.peak_nits.bits, value.bits) {
                out.peak_nits = value;
            }
        },
        HdrAppearanceField::Peak => {
            out.peak_nits = value;
            if less(value.bits, out.reference_white_nits.bits) {
                out.reference_white_nits = value;
            }
            if less(value.bits, out.full_frame_peak_nits.bits) {
                out.full_frame_peak_nits = value;
            }
        },
        HdrAppearanceField::FullFramePeak => {
            out.full_frame_peak_nits = value;
            if less(out.peak_nits.bits, value.bits) {
                out.peak_nits = value;
            }
        },
        HdrAppearanceField::Saturation => {
            out.saturation = value;
        },
        HdrAppearanceField::MidtoneGamma => {
            out.midtone_gamma = value;
        },
    }
    out
}

/// The tuning of one display: what was kept, what is tried, which preset is
/// shown, and the number of the current preview.
#[derive(Debug, Clone, Copy, PartialEq, Eq, Structural)]
pub struct HdrTuning {
    pub confirmed: HdrAppearance,
    pub draft: HdrAppearance,
    pub preset: u32,
    pub generation: u64,
}

/// How long a preview lasts, in seconds.
pub const PREVIEW_SECONDS: u64 = 15;

pub open spec fn next_generation(g: u64) -> u64 {
    if g == u64::MAX {
        0
    } else {
        (g + 1) as u64
    }
}

fn bump(g: u64) -> (r: u64)
    ensures
        r == next_generation(g),
        r != g,
{
    if g == u64::MAX {
        0
    } else {
        g + 1
    }
}

/// What happens to a tuning.
pub ghost enum TuningEvent {
    Scale { field: HdrAppearanceField, value: Level },
    Preset { selected: u32, neutral: HdrAppearance },
    Reset { neutral: HdrAppearance },
    Preview { shown: bool },
    /// The time of a preview is over and the saved values are shown again, where
    /// that was possible.
    Expired { preview: u64, restored: bool, neutral: HdrAppearance },
    Keep { valid: bool },
}

/// The tuning after it.
pub open spec fn tuned(t: HdrTuning, e: TuningEvent) -> HdrTuning {
    match e {
        TuningEvent::Scale { field, value } => HdrTuning {
            draft: with_field(t.draft, field, value),
            preset: HDR_APPEARANCE_CUSTOM_PRESET,
            ..t
        },
        TuningEvent::Preset { selected, neutral } => match preset_of(selected, neutral) {
            Some(a) => HdrTuning { draft: a, preset: selected, ..t },
            None => HdrTuning { preset: selected, ..t },
        },
        TuningEvent::Reset { neutral } => HdrTuning { draft: neutral, preset: 0, ..t },
        TuningEvent::Preview { shown } => if shown {
            HdrTuning { generation: next_generation(t.generation), ..t }
        } else {
            t
        },
        TuningEvent::Expired { preview, restored, neutral } => if t.generation == preview
            && restored {
            HdrTuning {
                confirmed: t.confirmed,
                draft: t.confirmed,
                preset: preset_index(t.confirmed, neutral),
                generation: next_generation(preview),
            }
        } else {
            t
        },
        TuningEvent::Keep { valid } => if valid {
            HdrTuning {
                confirmed: t.draft,
                generation: next_generation(t.generation),
                ..t
            }
        } else {
            t
        },
    }
}

impl HdrTuning {
    /// Nothing is tried yet.
    pub fn new(initial: HdrAppearance, neutral: HdrAppearance) -> (r: HdrTuning)
        ensures
            r == (HdrTuning {
                confirmed: initial,
                draft: initial,
                preset: preset_index(initial, neutral),
                generation: 0,
            }),
    {
        HdrTuning {
            confirmed: initial,
            draft: initial,
            preset: hdr_appearance_preset_index(initial, neutral),
            generation: 0,
        }
    }

    /// A scale was moved. The draft is to be previewed.
    pub fn on_scale(&mut self, field: HdrAppearanceField, value: Level)
        ensures
            *final(self) == tuned(*old(self), (TuningEvent::Scale { field, value })),
            *final(self) == (HdrTuning {
                draft: with_field(old(self).draft, field, value),
                preset: HDR_APPEARANCE_CUSTOM_PRESET,
                ..*old(self)
            }),
    {
        self.draft = set_appearance_field(self.draft, field, value);
        self.preset = HDR_APPEARANCE_CUSTOM_PRESET;
    }

    /// A preset was chosen. Returns whether the draft is to be previewed.
    pub fn on_preset(&mut self, selected: u32, neutral: HdrAppearance) -> (r: bool)
        ensures
            *final(self) == tuned(*old(self), (TuningEvent::Preset { selected, neutral })),
            match preset_of(selected, neutral) {
                Some(a) => r && *final(self) == (HdrTuning {
                    draft: a,
                    preset: selected,
                    ..*old(self)
                }),
                None => !r && *final(self) == (HdrTuning { preset: selected, ..*old(self) }),
            },
    {
        self.preset = selected;
        match hdr_appearance_preset(selected, neutral) {
            Some(a) => {
                self.draft = a;
                true
            },
            None => false,
        }
    }

    /// The defaults were asked for. The draft is to be previewed.
    pub fn on_reset(&mut self, neutral: HdrAppearance)
        ensures
            *final(self) == tuned(*old(self), (TuningEvent::Reset { neutral })),
            *final(self) == (HdrTuning { draft: neutral, preset: 0, ..*old(self) }),
    {
        self.draft = neutral;
        self.preset = 0;
    }

    /// The draft was checked, and handed to the compositor: what is said, and
    /// the number of the preview where one has begun.
    pub fn on_preview(&mut self, valid: &Result<(), String>, shown: &Result<(), String>) -> (r: (
        String,
        Option<u64>,
    ))
        ensures
            *final(self) == tuned(
                *old(self),
                (TuningEvent::Preview { shown: valid is Ok && shown is Ok }),
            ),
            match (*valid, *shown) {
                (Err(message), _) => {
                    &&& *final(self) == *old(self)
                    &&& r.0@ == "Not previewed: "@ + message@
                    &&& r.1 is None
                },
                (Ok(_), Err(message)) => {
                    &&& *final(self) == *old(self)
                    &&& r.0@ == "Preview unavailable: "@ + message@
                    &&& r.1 is None
                },
                (Ok(_), Ok(_)) => {
                    &&& *final(self) == (HdrTuning {
                        generation: next_generation(old(self).generation),
                        ..*old(self)
                    })
                    &&& r.0@ == "Previewing live for 15 seconds; choose Keep to save"@
                    &&& r.1 == Some(final(self).generation)
                },
            },
    {
        if let Err(message) = valid {
            return ("Not previewed: ".to_owned().concat(message.as_str()), None);
        }
        if let Err(message) = shown {
            return ("Preview unavailable: ".to_owned().concat(message.as_str()), None);
        }
        self.generation = bump(self.generation);
        (
            "Previewing live for 15 seconds; choose Keep to save".to_owned(),
            Some(self.generation),
        )
    }

    /// Whether the time of a preview that has run out is still the current one:
    /// then what was kept is to be shown again.
    pub fn is_current(&self, preview: u64) -> (r: bool)
        ensures
            r == (self.generation == preview),
    {
        self.generation == preview
    }

    /// What was kept was handed to the compositor again, at the end of the
    /// preview `preview`.
    pub fn on_expired(
        &mut self,
        preview: u64,
        restored: &Result<(), String>,
        neutral: HdrAppearance,
    ) -> (r: Option<String>)
        ensures
            *final(self) == tuned(
                *old(self),
                (TuningEvent::Expired { preview, restored: restored is Ok, neutral }),
            ),
            if old(self).generation != preview {
                *final(self) == *old(self) && r is None
            } else {
                match *restored {
                    Err(message) => {
                        &&& *final(self) == *old(self)
                        &&& opt_view(r) == Some(
                            "Could not restore saved HDR appearance: "@ + message@,
                        )
                    },
                    Ok(_) => {
                        &&& *final(self) == (HdrTuning {
                            confirmed: old(self).confirmed,
                            draft: old(self).confirmed,
                            preset: preset_index(old(self).confirmed, neutral),
                            generation: next_generation(preview),
                        })
                        &&& opt_view(r) == Some("Preview expired; restored the saved values"@)
                    },
                }
            },
    {
        if self.generation != preview {
            return None;
        }
        match restored {
            Err(message) => Some(
                "Could not restore saved HDR appearance: ".to_owned().concat(message.as_str()),
            ),
            Ok(_) => {
                self.draft = self.confirmed;
                self.preset = hdr_appearance_preset_index(self.confirmed, neutral);
                self.generation = bump(preview);
                Some("Preview expired; restored the saved values".to_owned())
            },
        }
    }

    /// The draft is to be kept, where it was found valid. Returns what is said,
    /// and what to save.
    pub fn on_keep(&mut self, valid: &Result<(), String>) -> (r: (String, Option<HdrAppearance>))
        ensures
            *final(self) == tuned(*old(self), (TuningEvent::Keep { valid: valid is Ok })),
            match *valid {
                Err(message) => {
                    &&& *final(self) == *old(self)
                    &&& r.0@ == "Cannot save: "@ + message@
                    &&& r.1 is None
                },
                Ok(_) => {
                    &&& *final(self) == (HdrTuning {
                        confirmed: old(self).draft,
                        generation: next_generation(old(self).generation),
                        ..*old(self)
                    })
                    &&& r.0@ == "Saved for this display"@
                    &&& r.1 == Some(old(self).draft)
                },
            },
    {
        match valid {
            Err(message) => ("Cannot save: ".to_owned().concat(message.as_str()), None),
            Ok(_) => {
                self.generation = bump(self.generation);
                self.confirmed = self.draft;
                ("Saved for this display".to_owned(), Some(self.draft))
            },
        }
    }

    /// The draft is to be kept for a display, where it was found valid. Returns
    /// what is said; the displays are to be saved then.
    pub fn keep_for(
        &mut self,
        valid: &Result<(), String>,
        displays: &mut Vec<DisplayConfig>,
        index: usize,
    ) -> (r: String)
        ensures
            match *valid {
                Err(message) => {
                    &&& *final(self) == *old(self)
                    &&& final(displays)@ == old(displays)@
                    &&& r@ == "Cannot save: "@ + message@
                },
                Ok(_) => {
                    &&& *final(self) == (HdrTuning {
                        confirmed: old(self).draft,
                        generation: next_generation(old(self).generation),
                        ..*old(self)
                    })
                    &&& final(displays)@ == if index < old(displays).len() {
                        old(displays)@.update(
                            index as int,
                            DisplayConfig {
                                hdr_appearance: old(self).draft,
                                ..old(displays)@[index as int]
                            },
                        )
                    } else {
                        old(displays)@
                    }
                    &&& r@ == "Saved for this display"@
                },
            },
    {
        let (text, kept) = self.on_keep(valid);
        if let Some(appearance) = kept {
            if index < displays.len() {
                displays[index].hdr_appearance = appearance;
            }
        }
        text
    }
}

/// After a draft was kept, and after a new preview has begun, the time of an
/// earlier preview runs out without effect.
pub proof fn law_old_previews_do_nothing(g: u64)
    ensures
        next_generation(g) != g,
        next_generation(next_generation(g)) != next_generation(g),
        next_generation(next_generation(g)) != g,
{
}

// ---------------------------------------------------------------------------
// Bars and focus
// ---------------------------------------------------------------------------

/// Where bars are shown, and whether the focused display is remembered.
#[derive(Debug, Clone, Copy, PartialEq, Eq, Structural)]
pub struct DisplayLayout {
    pub topbar_on_all_outputs: bool,
    pub sidebar_on_all_outputs: bool,
    pub remember_focused_output: bool,
}

/// The switches of the panel.
#[derive(Debug, Clone, Copy, PartialEq, Eq, Structural)]
pub enum DisplaySwitch {
    Topbar,
    Sidebar,
    Remember,
}

pub open spec fn display_switch_key(s: DisplaySwitch) -> Seq<char> {
    match s {
        DisplaySwitch::Topbar => "displays.topbar_on_all_outputs"@,
        DisplaySwitch::Sidebar => "displays.sidebar_on_all_outputs"@,
        DisplaySwitch::Remember => "displays.remember_focused_output"@,
    }
}

/// The key that a switch is saved and watched under.
pub fn display_key(s: DisplaySwitch) -> (r: &'static str)
    ensures
        r@ == display_switch_key(s),
{
    match s {
        DisplaySwitch::Topbar => "displays.topbar_on_all_outputs",
        DisplaySwitch::Sidebar => "displays.sidebar_on_all_outputs",
        DisplaySwitch::Remember => "displays.remember_focused_output",
    }
}

/// The switch of a key.
pub open spec fn display_switch_of(key: Seq<char>) -> Option<DisplaySwitch> {
    if key == "displays.topbar_on_all_outputs"@ {
        Some(DisplaySwitch::Topbar)
    } else if key == "displays.sidebar_on_all_outputs"@ {
        Some(DisplaySwitch::Sidebar)
    } else if key == "displays.remember_focused_output"@ {
        Some(DisplaySwitch::Remember)
    } else {
        None
    }
}

pub open spec fn with_switch(l: DisplayLayout, s: DisplaySwitch, active: bool) -> DisplayLayout {
    match s {
        DisplaySwitch::Topbar => DisplayLayout { topbar_on_all_outputs: active, ..l },
        DisplaySwitch::Sidebar => DisplayLayout { sidebar_on_all_outputs: active, ..l },
        DisplaySwitch::Remember => DisplayLayout { remember_focused_output: active, ..l },
    }
}

impl DisplayLayout {
    /// A switch was turned, here or elsewhere.
    pub fn set(&mut self, s: DisplaySwitch, active: bool)
        ensures
            *final(self) == with_switch(*old(self), s, active),
    {
        match s {
            DisplaySwitch::Topbar => {
                self.topbar_on_all_outputs = active;
            },
            DisplaySwitch::Sidebar => {
                self.sidebar_on_all_outputs = active;
            },
            DisplaySwitch::Remember => {
                self.remember_focused_output = active;
            },
        }
    }

    /// A setting was changed elsewhere: `value` is its value where that is a
    /// truth value. Returns the switch to set.
    pub fn on_event(&mut self, key: &str, value: Option<bool>) -> (r: Option<(
        DisplaySwitch,
        bool,
    )>)
        ensures
            match (display_switch_of(key@), value) {
                (Some(s), Some(active)) => r == Some((s, active)) && *final(self) == with_switch(
                    *old(self),
                    s,
                    active,
                ),
                _ => r is None && *final(self) == *old(self),
            },
    {
        let switch = if same(key, "displays.topbar_on_all_outputs") {
            DisplaySwitch::Topbar
        } else if same(key, "displays.sidebar_on_all_outputs") {
            DisplaySwitch::Sidebar
        } else if same(key, "displays.remember_focused_output") {
            DisplaySwitch::Remember
        } else {
            return None;
        };
        match value {
            Some(active) => {
                self.set(switch, active);
                Some((switch, active))
            },
            None => None,
        }
    }
}

/// The rate of a size that is chosen: the one that was there, where the display
/// has it at that size, else the highest that it has there.
pub proof fn law_chosen_rate(modes: Seq<DisplayModeConfig>, w: i32, h: i32, rate: i32, k: int)
    requires
        0 <= k < modes.len(),
        modes[k].width == w,
        modes[k].height == h,
    ensures
        has_mode(modes, w, h, rate_at(modes, w, h, rate)),
        has_mode(modes, w, h, rate) ==> rate_at(modes, w, h, rate) == rate,
        !has_mode(modes, w, h, rate) ==> rate_at(modes, w, h, rate) >= modes[k].refresh_mhz,
{
    lemma_best_rate(modes, w, h, k);
}

proof fn lemma_best_rate(modes: Seq<DisplayModeConfig>, w: i32, h: i32, k: int)
    ensures
        best_rate(modes, w, h) is Some ==> has_mode(modes, w, h, best_rate(modes, w, h)->Some_0),
        0 <= k < modes.len() && modes[k].width == w && modes[k].height == h ==> best_rate(
            modes,
            w,
            h,
        ) is Some && best_rate(modes, w, h)->Some_0 >= modes[k].refresh_mhz,
    decreases modes.len(),
{
    if modes.len() > 0 {
        let front = modes.drop_last();
        lemma_best_rate(front, w, h, k);
        let m = modes.last();
        assert(modes[modes.len() - 1] == m);
        if best_rate(front, w, h) is Some {
            let mode = DisplayModeConfig {
                width: w,
                height: h,
                refresh_mhz: best_rate(front, w, h)->Some_0,
            };
            let i = choose|i: int| 0 <= i < front.len() && front[i] == mode;
            assert(modes[i] == mode);
        }
        if m.width == w && m.height == h {
            assert(m == DisplayModeConfig { width: w, height: h, refresh_mhz: m.refresh_mhz });
            assert(modes.contains(m));
        }
    }
}

/// A menu shows the choice that is in force, where it offers it.
pub proof fn law_place<T>(list: Seq<T>, item: T, k: int)
    requires
        list.len() <= u32::MAX,
        0 <= k < list.len(),
        list[k] == item,
    ensures
        place_of(list, item, 0) <= k,
        list[place_of(list, item, 0) as int] == item,
{
    lemma_place(list, item, 0, k);
}

proof fn lemma_place<T>(list: Seq<T>, item: T, from: int, k: int)
    requires
        list.len() <= u32::MAX,
        0 <= from <= k < list.len(),
        list[k] == item,
    ensures
        from <= place_of(list, item, from) <= k,
        list[place_of(list, item, from) as int] == item,
    decreases list.len() - from,
{
    if list[from] != item {
        lemma_place(list, item, from + 1, k);
    }
}

/// A display shows what the compositor reports of its own connector, and of one
/// without a report nothing is claimed.
pub proof fn law_report_of_the_connector(
    d: DisplayConfig,
    reports: Seq<DisplayRuntimeOutputStatus>,
    keep_request: bool,
    k: int,
)
    ensures
        0 <= k < reports.len() && reports[k].connector@ == d.name@ && (forall|j: int|
            0 <= j < k ==> (#[trigger] reports[j]).connector@ != d.name@) ==> {
            let r = reported(d, reports, keep_request);
            &&& r.hdr_enabled == reports[k].hdr_active
            &&& r.hdr_supported == reports[k].hdr_supported
            &&& r.wide_gamut_active == reports[k].wide_gamut_active
            &&& r.icc_lut_fallback_active == reports[k].icc_lut_fallback_active
            &&& r.exclusive_hdr_phase == reports[k].exclusive_hdr_phase
            &&& r.exclusive_hdr_reason == reports[k].exclusive_hdr_reason
            &&& !keep_request ==> r.hdr_requested == reports[k].hdr_requested
        },
        (forall|j: int| 0 <= j < reports.len() ==> (#[trigger] reports[j]).connector@ != d.name@)
            ==> {
            let r = reported(d, reports, keep_request);
            &&& !r.hdr_enabled && !r.wide_gamut_active && !r.icc_lut_fallback_active
            &&& r.exclusive_hdr_phase == ExclusiveHdrPhase::Off && r.exclusive_hdr_reason is None
            &&& r.hdr_supported == d.hdr_supported && r.hdr_requested == d.hdr_requested
        },
{
    if 0 <= k < reports.len() && reports[k].connector@ == d.name@ && forall|j: int|
        0 <= j < k ==> (#[trigger] reports[j]).connector@ != d.name@ {
        lemma_report_on(reports, d.name@, k);
    }
    if forall|j: int| 0 <= j < reports.len() ==> (#[trigger] reports[j]).connector@ != d.name@ {
        lemma_report_on(reports, d.name@, reports.len() as int);
    }
}

proof fn lemma_report_on(reports: Seq<DisplayRuntimeOutputStatus>, name: Seq<char>, k: int)
    requires
        0 <= k <= reports.len(),
        k < reports.len() ==> reports[k].connector@ == name,
        forall|j: int| 0 <= j < k ==> (#[trigger] reports[j]).connector@ != name,
    ensures
        report_on(reports, name) == k,
    decreases k,
{
    if k > 0 {
        assert(reports[0].connector@ != name);
        let rest = reports.drop_first();
        assert forall|j: int| 0 <= j < k - 1 implies (#[trigger] rest[j]).connector@ != name by {
            assert(rest[j] == reports[j + 1]);
        }
        lemma_report_on(rest, name, k - 1);
    }
}

/// HDR is asked for only of a display that has it, and a display that it is no
/// longer asked of no longer counts as showing it; turning the switch on does not
/// make it so.
pub proof fn law_hdr_switch(d: DisplayConfig, active: bool)
    ensures
        with_hdr(d, active).hdr_requested ==> d.hdr_supported && active,
        d.hdr_supported && active ==> with_hdr(d, active).hdr_requested,
        !with_hdr(d, active).hdr_requested ==> !with_hdr(d, active).hdr_enabled,
        with_hdr(d, active).hdr_enabled ==> d.hdr_enabled,
        d.hdr_enabled && d.hdr_supported ==> with_hdr(d, true).hdr_enabled,
        with_hdr(with_hdr(d, false), true).hdr_requested == d.hdr_supported,
{
}

/// The button for all displays counts right: it can be used exactly where a
/// capable display has its request, and once the requests are aligned either
/// all of the capable ones have it or none.
pub proof fn law_hdr_counts(displays: Seq<DisplayConfig>)
    ensures
        requested_count(displays) <= capable_count(displays) <= displays.len(),
        requested_count(displays) > 0 <==> any_requested(displays),
        capable_count(aligned(displays)) == capable_count(displays),
        any_requested(displays) ==> requested_count(aligned(displays)) == capable_count(displays),
        !any_requested(displays) ==> requested_count(aligned(displays)) == 0,
    decreases displays.len(),
{
    lemma_counts(displays);
    let all = aligned(displays);
    lemma_counts(all);
    assert forall|i: int| 0 <= i < all.len() implies capable(#[trigger] all[i]) == capable(
        displays[i],
    ) by {}
    lemma_same_capable(all, displays);
    if any_requested(displays) {
        assert forall|i: int| 0 <= i < all.len() && capable(#[trigger] all[i]) implies all[i].hdr_requested by {}
        lemma_all_requested(all);
    } else {
        if any_requested(all) {
            let i = choose|i: int|
                0 <= i < all.len() && capable(#[trigger] all[i]) && all[i].hdr_requested;
            assert(capable(displays[i]) && displays[i].hdr_requested);
        }
    }
}

proof fn lemma_counts(displays: Seq<DisplayConfig>)
    ensures
        requested_count(displays) <= capable_count(displays) <= displays.len(),
        requested_count(displays) > 0 <==> any_requested(displays),
    decreases displays.len(),
{
    if displays.len() > 0 {
        let front = displays.drop_last();
        lemma_counts(front);
        if any_requested(front) {
            let i = choose|i: int|
                0 <= i < front.len() && capable(#[trigger] front[i]) && front[i].hdr_requested;
            assert(capable(displays[i]) && displays[i].hdr_requested);
        }
        if capable(displays.last()) && displays.last().hdr_requested {
            assert(capable(displays[displays.len() - 1]));
        }
        if any_requested(displays) && !any_requested(front) {
            let i = choose|i: int|
                0 <= i < displays.len() && capable(#[trigger] displays[i])
                    && displays[i].hdr_requested;
            if i < front.len() {
                assert(capable(front[i]) && front[i].hdr_requested);
            }
        }
    }
}

proof fn lemma_same_capable(a: Seq<DisplayConfig>, b: Seq<DisplayConfig>)
    requires
        a.len() == b.len(),
        forall|i: int| 0 <= i < a.len() ==> capable(#[trigger] a[i]) == capable(b[i]),
    ensures
        capable_count(a) == capable_count(b),
    decreases a.len(),
{
    if a.len() > 0 {
        assert(capable(a[a.len() - 1]) == capable(b[a.len() - 1]));
        assert forall|i: int| 0 <= i < a.drop_last().len() implies capable(
            #[trigger] a.drop_last()[i],
        ) == capable(b.drop_last()[i]) by {
            assert(capable(a[i]) == capable(b[i]));
        }
        lemma_same_capable(a.drop_last(), b.drop_last());
    }
}

proof fn lemma_all_requested(a: Seq<DisplayConfig>)
    requires
        forall|i: int| 0 <= i < a.len() && capable(#[trigger] a[i]) ==> a[i].hdr_requested,
    ensures
        requested_count(a) == capable_count(a),
    decreases a.len(),
{
    if a.len() > 0 {
        let front = a.drop_last();
        assert(capable(a[a.len() - 1]) ==> a[a.len() - 1].hdr_requested);
        assert forall|i: int| 0 <= i < front.len() && capable(
            #[trigger] front[i],
        ) implies front[i].hdr_requested by {
            assert(capable(a[i]));
        }
        lemma_all_requested(front);
    }
}

/// The positions of the menus stand for these names and profiles.
pub proof fn law_display_menus(transform: Seq<char>)
    ensures
        orientation_name(0) == "Normal"@,
        orientation_name(1) == "Rotate90"@,
        orientation_name(2) == "Rotate180"@,
        orientation_name(3) == "Rotate270"@,
        orientation_label(1) == "Portrait Right"@,
        orientation_label(2) == "Landscape Flipped"@,
        orientation_label(3) == "Portrait Left"@,
        orientation_index(transform) < 4,
        orientation_index(transform) > 0 ==> orientation_name(orientation_index(transform))
            == transform,
        color_profile_at(0) == DisplayColorProfile::Auto,
        color_profile_at(1) == DisplayColorProfile::Srgb,
        color_profile_at(2) == DisplayColorProfile::DisplayP3,
        pattern_at(0) == HdrCalibrationPattern::Off,
        pattern_at(1) == HdrCalibrationPattern::Overview,
        pattern_at(2) == HdrCalibrationPattern::NearBlack,
        pattern_at(3) == HdrCalibrationPattern::ReferenceWhite,
        pattern_at(4) == HdrCalibrationPattern::PeakWindow,
        pattern_at(5) == HdrCalibrationPattern::PeakFullFrame,
{
}

/// One level of an appearance.
pub open spec fn level_of(a: HdrAppearance, field: HdrAppearanceField) -> Level {
    match field {
        HdrAppearanceField::BlackLevel => a.black_level_nits,
        HdrAppearanceField::ReferenceWhite => a.reference_white_nits,
        HdrAppearanceField::Peak => a.peak_nits,
        HdrAppearanceField::FullFramePeak => a.full_frame_peak_nits,
        HdrAppearanceField::Saturation => a.saturation,
        HdrAppearanceField::MidtoneGamma => a.midtone_gamma,
    }
}

/// A slider sets its own level to what it shows. Of the other levels only those
/// change that the peak has to stay above, or the peak itself.
pub proof fn law_slider(
    a: HdrAppearance,
    field: HdrAppearanceField,
    other: HdrAppearanceField,
    value: Level,
)
    ensures
        level_of(with_field(a, field, value), field) == value,
        other != field && level_of(with_field(a, field, value), other) != level_of(a, other) ==> {
            ||| field == HdrAppearanceField::Peak && (other == HdrAppearanceField::ReferenceWhite
                || other == HdrAppearanceField::FullFramePeak)
            ||| other == HdrAppearanceField::Peak && (field == HdrAppearanceField::ReferenceWhite
                || field == HdrAppearanceField::FullFramePeak)
        },
{
}

/// What is saved changes only when the user keeps it, and to what they see; a
/// preview that runs out shows what is saved again, unless something came after
/// it.
pub proof fn law_tuning(t: HdrTuning, e: TuningEvent)
    ensures
        tuned(t, e).confirmed != t.confirmed ==> e == (TuningEvent::Keep { valid: true }),
        tuned(t, TuningEvent::Keep { valid: true }).confirmed == t.draft,
        tuned(t, TuningEvent::Keep { valid: true }).draft == t.draft,
        tuned(t, TuningEvent::Keep { valid: true }).generation != t.generation,
        tuned(t, TuningEvent::Preview { shown: true }).generation != t.generation,
        tuned(t, TuningEvent::Preview { shown: true }).draft == t.draft,
        e is Expired && e->Expired_preview == t.generation && e->Expired_restored ==> tuned(
            t,
            e,
        ).draft == t.confirmed && tuned(t, e).generation != t.generation,
        e is Expired && e->Expired_preview != t.generation ==> tuned(t, e) == t,
        e is Scale ==> level_of(tuned(t, e).draft, e->field) == e->value && tuned(t, e).generation
            == t.generation,
        e is Reset ==> tuned(t, e).draft == e->Reset_neutral,
        e is Preset && e->selected < 3 ==> Some(tuned(t, e).draft) == preset_of(
            e->selected,
            e->Preset_neutral,
        ),
        e is Preset && e->selected >= 3 ==> tuned(t, e).draft == t.draft,
{
    law_old_previews_do_nothing(t.generation);
    if e is Scale {
        law_slider(t.draft, e->field, e->field, e->value);
    }
}

/// The button turns exclusive HDR off where it is active, and asks for it
/// everywhere else.
pub proof fn law_exclusive_button(phase: ExclusiveHdrPhase)
    ensures
        toggled_phase(phase) == ExclusiveHdrPhase::Disabled <==> phase
            == ExclusiveHdrPhase::Active,
        toggled_phase(phase) == ExclusiveHdrPhase::Requested <==> phase
            != ExclusiveHdrPhase::Active,
{
}

/// Whether a switch of the layout is on.
pub open spec fn switch_of(l: DisplayLayout, s: DisplaySwitch) -> bool {
    match s {
        DisplaySwitch::Topbar => l.topbar_on_all_outputs,
        DisplaySwitch::Sidebar => l.sidebar_on_all_outputs,
        DisplaySwitch::Remember => l.remember_focused_output,
    }
}

/// A switch of the layout sets its own setting and no other, and a change that
/// comes under its key is its own.
pub proof fn law_layout_switches(
    l: DisplayLayout,
    s: DisplaySwitch,
    other: DisplaySwitch,
    active: bool,
)
    ensures
        switch_of(with_switch(l, s, active), s) == active,
        other != s ==> switch_of(with_switch(l, s, active), other) == switch_of(l, other),
        display_switch_of(display_switch_key(s)) == Some(s),
        display_switch_key(DisplaySwitch::Topbar) == "displays.topbar_on_all_outputs"@,
        display_switch_key(DisplaySwitch::Sidebar) == "displays.sidebar_on_all_outputs"@,
        display_switch_key(DisplaySwitch::Remember) == "displays.remember_focused_output"@,
{
    reveal_strlit("displays.topbar_on_all_outputs");
    reveal_strlit("displays.sidebar_on_all_outputs");
    reveal_strlit("displays.remember_focused_output");
    assert("displays.topbar_on_all_outputs"@[9] != "displays.sidebar_on_all_outputs"@[9]);
    assert("displays.topbar_on_all_outputs"@[9] != "displays.remember_focused_output"@[9]);
    assert("displays.sidebar_on_all_outputs"@[9] != "displays.remember_focused_output"@[9]);
}

/// What is sent for a display is the display: its place, its size and its
/// settings, under its own name.
pub proof fn law_sent_layout(o: OutputConfig, d: DisplayConfig)
    requires
        describes(o, d),
    ensures
        o.connector@ == d.name@,
        o.x == d.logical_x && o.y == d.logical_y,
        o.width == d.mode_width && o.height == d.mode_height,
        o.refresh_mhz == d.refresh_mhz,
        o.enabled == d.enabled && o.primary == d.primary,
        o.hdr_requested == d.hdr_requested && o.hdr_enabled == d.hdr_enabled,
        o.color_profile == d.color_profile && o.hdr_appearance == d.hdr_appearance,
{
}

} // verus!
