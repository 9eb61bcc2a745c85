//! The greeter's frame: what it says, where everything stands, and what can be
//! clicked.
//!
//! A frame is composed as a list of [`DrawOp`]s, which is then painted into a
//! pixel buffer or turned into textured and solid rectangles for a GPU. What
//! only a font can tell comes in as plain numbers ([`FrameMetrics`]).

use crate::font::{
    addressable, blend_all, blend_pixel, blend_ring, dotted, draw_line, draw_text, ellipsize,
    ellipsized, fill_rect as fill, glyph_fits, greater, lemma_painted_concat, lesser, lettered,
    line_fits, line_pixels, painted, points, rect_fits, rect_pixels, ring_fits, ring_pixels, Color,
    Glyph,
};
use crate::glyph_atlas::{FontId, IconId};
use crate::ipc_client::AuthMessageStyle;
use crate::login::{LoginState, LoginView};
use crate::polygon::{boxed, law_polygon_within_its_corners, polygon_list, polygon_pixels};
use crate::text::{alnum, chars_of, is_alnum, upper, upper_char};
use vstd::prelude::*;

verus! {

// ---------------------------------------------------------------------------
// Rectangles and what can be clicked
// ---------------------------------------------------------------------------

#[derive(Clone, Copy, Debug, PartialEq, Eq, Structural)]
pub struct Rect {
    pub x: i32,
    pub y: i32,
    pub w: i32,
    pub h: i32,
}

impl Default for Rect {
    fn default() -> (r: Rect)
        ensures
            r == (Rect { x: 0, y: 0, w: 0, h: 0 }),
    {
        Rect { x: 0, y: 0, w: 0, h: 0 }
    }
}

/// The point lies in the rectangle; the far edges do not belong to it.
pub open spec fn within(r: Rect, px: int, py: int) -> bool {
    r.x <= px < r.x + r.w && r.y <= py < r.y + r.h
}

impl Rect {
    /// Whether the point lies in the rectangle.
    pub fn contains(&self, px: i32, py: i32) -> (r: bool)
        ensures
            r == within(*self, px as int, py as int),
    {
        px >= self.x && py >= self.y && (px as i64) < self.x as i64 + self.w as i64 && (py as i64)
            < self.y as i64 + self.h as i64
    }
}

#[derive(Clone, Copy, Debug, PartialEq, Eq, Structural)]
pub enum PowerAction {
    Suspend,
    Hibernate,
    Restart,
    PowerOff,
}

impl PowerAction {
    pub open spec fn spec_label(self) -> Seq<char> {
        match self {
            PowerAction::Suspend => "Suspend"@,
            PowerAction::Hibernate => "Hibernate"@,
            PowerAction::Restart => "Restart"@,
            PowerAction::PowerOff => "Shut down"@,
        }
    }

    /// What the power menu calls the action.
    pub fn label(self) -> (r: &'static str)
        ensures
            r@ == self.spec_label(),
    {
        match self {
            PowerAction::Suspend => "Suspend",
            PowerAction::Hibernate => "Hibernate",
            PowerAction::Restart => "Restart",
            PowerAction::PowerOff => "Shut down",
        }
    }
}

/// Where a frame can be clicked.
#[derive(Clone, Debug)]
pub struct FrameHitTargets {
    pub power_button: Rect,
    pub power_menu_items: Vec<(PowerAction, Rect)>,
    pub field: Rect,
}

/// The value of [`FrameHitTargets`].
pub ghost struct TargetsView {
    pub power_button: Rect,
    pub power_menu_items: Seq<(PowerAction, Rect)>,
    pub field: Rect,
}

impl View for FrameHitTargets {
    type V = TargetsView;

    open spec fn view(&self) -> TargetsView {
        TargetsView {
            power_button: self.power_button,
            power_menu_items: self.power_menu_items@,
            field: self.field,
        }
    }
}

impl Default for FrameHitTargets {
    fn default() -> (r: FrameHitTargets)
        ensures
            r.power_button == (Rect { x: 0, y: 0, w: 0, h: 0 }),
            r.power_menu_items@ == Seq::<(PowerAction, Rect)>::empty(),
            r.field == (Rect { x: 0, y: 0, w: 0, h: 0 }),
    {
        FrameHitTargets {
            power_button: Rect::default(),
            power_menu_items: Vec::new(),
            field: Rect::default(),
        }
    }
}

/// The pointer, where there is one, lies in the rectangle.
pub open spec fn hovered(pointer: Option<(i32, i32)>, r: Rect) -> bool {
    pointer is Some && within(r, pointer->Some_0.0 as int, pointer->Some_0.1 as int)
}

/// Whether the pointer lies in the rectangle.
pub fn hover(pointer: Option<(i32, i32)>, rect: Rect) -> (r: bool)
    ensures
        r == hovered(pointer, rect),
{
    match pointer {
        Some((x, y)) => rect.contains(x, y),
        None => false,
    }
}

// ---------------------------------------------------------------------------
// What the frame says
// ---------------------------------------------------------------------------

/// The line above the field.
pub open spec fn prompt_line_of(state: LoginView) -> Seq<char> {
    match state {
        LoginView::EnterUsername { error: Some(msg), .. } => msg,
        LoginView::EnterUsername { error: None, .. } => "unlock your session"@,
        LoginView::Waiting { .. } => "authenticating"@,
        LoginView::Prompt { message, .. } => message,
        LoginView::Done => "starting session"@,
    }
}

pub fn prompt_line(state: &LoginState) -> (r: String)
    ensures
        r@ == prompt_line_of(state@),
{
    match state {
        LoginState::EnterUsername { error: Some(msg), .. } => msg.clone(),
        LoginState::EnterUsername { error: None, .. } => "unlock your session".to_owned(),
        LoginState::Waiting { .. } => "authenticating".to_owned(),
        LoginState::Prompt { message, .. } => message.clone(),
        LoginState::Done => "starting session".to_owned(),
    }
}

pub open spec fn headline_of(state: LoginView) -> Seq<char> {
    match state {
        LoginView::EnterUsername { error: None, .. } => "Welcome back"@,
        LoginView::EnterUsername { error: Some(_), .. } => "Authentication failed"@,
        LoginView::Waiting { .. } => "Checking credentials"@,
        LoginView::Prompt { .. } => "Enter passphrase"@,
        LoginView::Done => "Launching session"@,
    }
}

pub fn headline(state: &LoginState) -> (r: &'static str)
    ensures
        r@ == headline_of(state@),
{
    match state {
        LoginState::EnterUsername { error: None, .. } => "Welcome back",
        LoginState::EnterUsername { error: Some(_), .. } => "Authentication failed",
        LoginState::Waiting { .. } => "Checking credentials",
        LoginState::Prompt { .. } => "Enter passphrase",
        LoginState::Done => "Launching session",
    }
}

/// The line below the headline.
pub open spec fn subtitle_of(state: LoginView) -> Seq<char> {
    match state {
        LoginView::EnterUsername { username, .. } => if username.len() == 0 {
            "Type your username and press Enter"@
        } else {
            "User: "@ + username
        },
        LoginView::Waiting { username, .. } => "Authenticating "@ + username,
        LoginView::Prompt { username, .. } => "Session for "@ + username,
        LoginView::Done => "Please wait"@,
    }
}

pub fn subtitle(state: &LoginState) -> (r: String)
    ensures
        r@ == subtitle_of(state@),
{
    match state {
        LoginState::EnterUsername { username, .. } => if username.as_str().is_empty() {
            "Type your username and press Enter".to_owned()
        } else {
            "User: ".to_owned().concat(username.as_str())
        },
        LoginState::Waiting { username, .. } => "Authenticating ".to_owned().concat(
            username.as_str(),
        ),
        LoginState::Prompt { username, .. } => "Session for ".to_owned().concat(
            username.as_str(),
        ),
        LoginState::Done => "Please wait".to_owned(),
    }
}

/// A dot for each character.
pub open spec fn dots(n: nat) -> Seq<char> {
    Seq::new(n, |i: int| '\u{2022}')
}

/// What the field shows: a secret only as dots.
pub open spec fn field_text_of(state: LoginView) -> Seq<char> {
    match state {
        LoginView::EnterUsername { username, .. } => username,
        LoginView::Prompt { input, style, .. } => if style == AuthMessageStyle::Secret {
            dots(input.len())
        } else {
            input
        },
        _ => Seq::empty(),
    }
}

pub fn field_text(state: &LoginState) -> (r: String)
    ensures
        r@ == field_text_of(state@),
{
    match state {
        LoginState::EnterUsername { username, .. } => username.clone(),
        LoginState::Prompt { input, style, .. } => {
            if *style == AuthMessageStyle::Secret {
                let n: usize = chars_of(input.as_str()).len();
                let mut out = String::new();
                let mut i: usize = 0;
                assert(out@ =~= dots(0));
                while i < n
                    invariant
                        i <= n,
                        out@ == dots(i as nat),
                    decreases n - i,
                {
                    out.push('\u{2022}');
                    i += 1;
                    assert(dots(i as nat) =~= dots((i - 1) as nat).push('\u{2022}'));
                }
                out
            } else {
                input.clone()
            }
        },
        LoginState::Waiting { .. } | LoginState::Done => String::new(),
    }
}

/// What an empty field shows.
pub open spec fn placeholder_of(state: LoginView) -> Seq<char> {
    match state {
        LoginView::EnterUsername { .. } => "Username"@,
        LoginView::Prompt { style, .. } => if style == AuthMessageStyle::Secret {
            "Password"@
        } else {
            "Response"@
        },
        _ => ""@,
    }
}

pub fn placeholder(state: &LoginState) -> (r: &'static str)
    ensures
        r@ == placeholder_of(state@),
{
    match state {
        LoginState::EnterUsername { .. } => "Username",
        LoginState::Prompt { style, .. } => if *style == AuthMessageStyle::Secret {
            "Password"
        } else {
            "Response"
        },
        _ => "",
    }
}

/// The information and error lines that PAM emitted before the prompt, and
/// those that came since.
pub open spec fn notices_of(state: LoginView) -> Seq<(AuthMessageStyle, Seq<char>)> {
    match state {
        LoginView::Prompt { notices, .. } => notices,
        _ => Seq::empty(),
    }
}

/// The number of notices.
pub fn notice_count(state: &LoginState) -> (r: usize)
    ensures
        r == notices_of(state@).len(),
{
    match state {
        LoginState::Prompt { notices, .. } => notices.len(),
        _ => 0,
    }
}

/// The style and the text of a notice.
pub fn notice(state: &LoginState, i: usize) -> (r: (AuthMessageStyle, String))
    requires
        i < notices_of(state@).len(),
    ensures
        (r.0, r.1@) == notices_of(state@)[i as int],
{
    match state {
        LoginState::Prompt { notices, .. } => (notices[i].0, notices[i].1.clone()),
        _ => (AuthMessageStyle::Info, String::new()),
    }
}

/// The first ASCII letter or digit from position `i` on, or `f`.
pub open spec fn initial_from(s: Seq<char>, i: int) -> char
    decreases s.len() - i,
{
    if i < 0 || i >= s.len() {
        'f'
    } else if is_alnum(s[i]) {
        s[i]
    } else {
        initial_from(s, i + 1)
    }
}

/// The letter in the avatar: the first letter or digit of the subtitle, in
/// upper case.
pub open spec fn avatar_char_of(state: LoginView) -> char {
    upper(initial_from(subtitle_of(state), 0))
}

pub fn avatar_char(state: &LoginState) -> (r: char)
    ensures
        r == avatar_char_of(state@),
{
    let line = subtitle(state);
    let chars = chars_of(line.as_str());
    let mut i: usize = 0;
    while i < chars.len()
        invariant
            i <= chars.len(),
            chars@ == subtitle_of(state@),
            initial_from(chars@, 0) == initial_from(chars@, i as int),
        decreases chars.len() - i,
    {
        if alnum(chars[i]) {
            return upper_char(chars[i]);
        }
        i += 1;
    }
    upper_char('f')
}

/// The colour of the avatar.
pub open spec fn avatar_color_of(state: LoginView) -> Color {
    match state {
        LoginView::EnterUsername { error: None, .. } => (72u8, 152u8, 220u8),
        LoginView::EnterUsername { error: Some(_), .. } => (220u8, 92u8, 80u8),
        LoginView::Waiting { .. } => (220u8, 180u8, 64u8),
        LoginView::Prompt { .. } => (74u8, 170u8, 150u8),
        LoginView::Done => (80u8, 196u8, 116u8),
    }
}

pub fn avatar_color(state: &LoginState) -> (r: Color)
    ensures
        r == avatar_color_of(state@),
{
    match state {
        LoginState::EnterUsername { error: None, .. } => (72, 152, 220),
        LoginState::EnterUsername { error: Some(_), .. } => (220, 92, 80),
        LoginState::Waiting { .. } => (220, 180, 64),
        LoginState::Prompt { .. } => (74, 170, 150),
        LoginState::Done => (80, 196, 116),
    }
}

/// The sizes that the frame's text comes in.
#[derive(Clone, Copy, Debug, PartialEq, Eq, Structural)]
pub enum TextSize {
    Title,
    Avatar,
    Body,
    Field,
    Small,
}

/// The line below the panel: its text before it is cut, its size and colour,
/// and whether it is cut to the width of the screen.
pub open spec fn note_of(state: LoginView) -> (Seq<char>, TextSize, Color, bool) {
    match state {
        LoginView::EnterUsername { error: Some(msg), .. } => (
            msg,
            TextSize::Body,
            (228u8, 92u8, 86u8),
            true,
        ),
        LoginView::Done => (
            "Handing off to the session..."@,
            TextSize::Body,
            (160u8, 174u8, 187u8),
            false,
        ),
        _ => (
            "Esc cancels. Click the power icon for power options."@,
            TextSize::Small,
            (152u8, 166u8, 178u8),
            false,
        ),
    }
}

pub fn note(state: &LoginState) -> (r: (String, TextSize, Color, bool))
    ensures
        (r.0@, r.1, r.2, r.3) == note_of(state@),
{
    match state {
        LoginState::EnterUsername { error: Some(msg), .. } => (
            msg.clone(),
            TextSize::Body,
            (228, 92, 86),
            true,
        ),
        LoginState::Done => (
            "Handing off to the session...".to_owned(),
            TextSize::Body,
            (160, 174, 187),
            false,
        ),
        _ => (
            "Esc cancels. Click the power icon for power options.".to_owned(),
            TextSize::Small,
            (152, 166, 178),
            false,
        ),
    }
}

// ---------------------------------------------------------------------------
// Where everything stands
// ---------------------------------------------------------------------------

/// Half of the free space, where there is any.
pub open spec fn half_free(all: int, used: int) -> int {
    if all > used {
        (all - used) / 2
    } else {
        0
    }
}

fn half_of_free(all: i32, used: i32) -> (r: i32)
    requires
        0 <= all,
        0 <= used,
    ensures
        r == half_free(all as int, used as int),
        0 <= r <= all / 2,
{
    if all > used {
        (all - used) / 2
    } else {
        0
    }
}

/// The panel in the middle of the screen, a little below the centre, never
/// closer than 32 pixels to the left and 48 to the top.
pub open spec fn panel_of(width: int, height: int, panel_w: int, panel_h: int) -> Rect {
    Rect {
        x: greater(half_free(width, panel_w), 32) as i32,
        y: greater(half_free(height, panel_h) + 22, 48) as i32,
        w: lesser(panel_w, width - 48) as i32,
        h: panel_h as i32,
    }
}

/// The button in the upper right corner.
pub open spec fn power_button_of(width: int) -> Rect {
    Rect { x: (width - 92) as i32, y: 28, w: 56, h: 56 }
}

/// The text field at the lower end of the panel.
pub open spec fn field_of(panel: Rect) -> Rect {
    Rect {
        x: (panel.x + 28) as i32,
        y: (panel.y + panel.h - 82) as i32,
        w: (panel.w - 56) as i32,
        h: 48,
    }
}

/// The sizes that a screen and a panel may have.
pub open spec fn sizes_fit(width: int, height: int, panel_w: int, panel_h: int) -> bool {
    &&& 0 <= width <= i32::MAX
    &&& 0 <= height <= i32::MAX
    &&& 420 <= panel_w <= 700
    &&& 270 <= panel_h <= 400
}

/// Where the parts of a frame stand.
#[derive(Clone, Copy, Debug, PartialEq, Eq, Structural)]
pub struct FrameLayout {
    pub panel: Rect,
    pub power_button: Rect,
    pub field: Rect,
}

pub open spec fn layout_of(width: int, height: int, panel_w: int, panel_h: int) -> FrameLayout {
    let panel = panel_of(width, height, panel_w, panel_h);
    FrameLayout { panel, power_button: power_button_of(width), field: field_of(panel) }
}

/// The layout of a screen of `width` by `height`, with a panel of `panel_w` by
/// `panel_h` (0.42 and 0.34 of the screen, within 420 to 700 and 270 to 400).
pub fn frame_layout(width: i32, height: i32, panel_w: i32, panel_h: i32) -> (r: FrameLayout)
    requires
        sizes_fit(width as int, height as int, panel_w as int, panel_h as int),
    ensures
        r == layout_of(width as int, height as int, panel_w as int, panel_h as int),
{
    let left: i32 = half_of_free(width, panel_w);
    let top: i32 = half_of_free(height, panel_h) + 22;
    let panel = Rect {
        x: if left >= 32 {
            left
        } else {
            32
        },
        y: if top >= 48 {
            top
        } else {
            48
        },
        w: if panel_w <= width - 48 {
            panel_w
        } else {
            width - 48
        },
        h: panel_h,
    };
    let power_button = Rect { x: width - 92, y: 28, w: 56, h: 56 };
    let field = Rect {
        x: panel.x + 28,
        y: panel.y + panel.h - 82,
        w: panel.w - 56,
        h: 48,
    };
    FrameLayout { panel, power_button, field }
}

/// The power menu: below the button, or above it where the screen is too low.
pub open spec fn menu_of(button: Rect, height: int) -> Rect {
    let below = button.y + button.h + 12;
    Rect {
        x: greater(button.x + button.w - 220, 24) as i32,
        y: if below + 188 > height - 24 {
            (button.y - 188 - 12) as i32
        } else {
            below as i32
        },
        w: 220,
        h: 188,
    }
}

/// The actions of the power menu, from the top.
pub open spec fn menu_actions() -> Seq<PowerAction> {
    seq![
        PowerAction::Suspend,
        PowerAction::Hibernate,
        PowerAction::Restart,
        PowerAction::PowerOff,
    ]
}

/// The `i`-th item of the power menu.
pub open spec fn menu_item(menu: Rect, i: int) -> Rect {
    Rect {
        x: (menu.x + 8) as i32,
        y: (menu.y + 8 + i * 44) as i32,
        w: (menu.w - 16) as i32,
        h: 40,
    }
}

/// The items of the power menu and their places.
pub open spec fn menu_items(menu: Rect) -> Seq<(PowerAction, Rect)> {
    Seq::new(4, |i: int| (menu_actions()[i], menu_item(menu, i)))
}

pub fn power_menu(button: Rect, height: i32) -> (r: Rect)
    requires
        in_i32(button.x + button.w),
        in_i32(button.x + button.w - 220),
        in_i32(button.y + button.h),
        in_i32(button.y + button.h + 200),
        in_i32(height - 24),
        button.y + button.h + 200 > height - 24 ==> in_i32(button.y - 200),
    ensures
        r == menu_of(button, height as int),
{
    let x: i32 = button.x + button.w - 220;
    let below: i32 = button.y + button.h + 12;
    Rect {
        x: if x >= 24 {
            x
        } else {
            24
        },
        y: if below + 188 > height - 24 {
            button.y - 188 - 12
        } else {
            below
        },
        w: 220,
        h: 188,
    }
}

pub fn power_menu_items(menu: Rect) -> (r: Vec<(PowerAction, Rect)>)
    requires
        in_i32(menu.x + 8),
        in_i32(menu.y + 140),
        in_i32(menu.w - 16),
    ensures
        r@ == menu_items(menu),
{
    let mut out: Vec<(PowerAction, Rect)> = Vec::new();
    let w: i32 = menu.w - 16;
    out.push((PowerAction::Suspend, Rect { x: menu.x + 8, y: menu.y + 8, w, h: 40 }));
    out.push((PowerAction::Hibernate, Rect { x: menu.x + 8, y: menu.y + 52, w, h: 40 }));
    out.push((PowerAction::Restart, Rect { x: menu.x + 8, y: menu.y + 96, w, h: 40 }));
    out.push((PowerAction::PowerOff, Rect { x: menu.x + 8, y: menu.y + 140, w, h: 40 }));
    assert(out@ =~= menu_items(menu));
    out
}

/// A point lies in at most one item of the power menu, and every item lies
/// within the menu.
pub proof fn law_menu_items_apart(width: int, height: int, i: int, j: int, px: int, py: int)
    requires
        0 <= width <= i32::MAX,
        0 <= height <= i32::MAX,
        0 <= i < 4,
        0 <= j < 4,
        within(menu_item(menu_of(power_button_of(width), height), i), px, py),
    ensures
        within(menu_of(power_button_of(width), height), px, py),
        within(menu_item(menu_of(power_button_of(width), height), j), px, py) ==> i == j,
{
}

/// On a screen of at least 244 by 308 pixels the power button and its menu are
/// on the screen, and the menu does not cover the button.
pub proof fn law_menu_on_screen(width: int, height: int, px: int, py: int)
    requires
        244 <= width <= i32::MAX,
        308 <= height <= i32::MAX,
    ensures
        within(power_button_of(width), px, py) || within(
            menu_of(power_button_of(width), height),
            px,
            py,
        ) ==> 0 <= px < width && 0 <= py < height,
        !(within(power_button_of(width), px, py) && within(
            menu_of(power_button_of(width), height),
            px,
            py,
        )),
{
}

/// The field lies within the panel. The panel is on the screen wherever the
/// screen is 48 pixels higher than the panel; where it is 124 pixels higher, or
/// leaves 184 pixels beside the panel, the panel keeps clear of the power
/// button.
pub proof fn law_panel_on_screen(
    width: int,
    height: int,
    panel_w: int,
    panel_h: int,
    px: int,
    py: int,
)
    requires
        sizes_fit(width, height, panel_w, panel_h),
    ensures
        ({
            let l = layout_of(width, height, panel_w, panel_h);
            &&& within(l.field, px, py) ==> within(l.panel, px, py)
            &&& height >= panel_h + 48 && within(l.panel, px, py) ==> 0 <= px < width && 0 <= py
                < height
            &&& height >= panel_h + 124 || width >= panel_w + 184 ==> !(within(l.panel, px, py)
                && within(l.power_button, px, py))
        }),
{
}

// ---------------------------------------------------------------------------
// The drawing of a frame
// ---------------------------------------------------------------------------

/// One step of the drawing of a frame.
#[derive(Debug)]
pub enum DrawOp {
    Background,
    Shadow { rect: Rect },
    Solid { rect: Rect, color: Color, alpha: u8 },
    Border { rect: Rect, thickness: i32, color: Color, alpha: u8 },
    AvatarDisc { cx: i32, cy: i32, color: Color, alpha: u8 },
    AvatarRing { cx: i32, cy: i32, color: Color, alpha: u8 },
    SpinnerDot { cx: i32, cy: i32, color: Color, alpha: u8 },
    Text { font: FontId, size: TextSize, x: i32, baseline: i32, color: Color, text: String },
    PowerIcon { rect: Rect, color: Color, alpha: u8 },
    Cursor { x: i32, y: i32 },
}

/// The value of a [`DrawOp`].
pub ghost enum DrawOpView {
    Background,
    Shadow { rect: Rect },
    Solid { rect: Rect, color: Color, alpha: u8 },
    Border { rect: Rect, thickness: i32, color: Color, alpha: u8 },
    AvatarDisc { cx: i32, cy: i32, color: Color, alpha: u8 },
    AvatarRing { cx: i32, cy: i32, color: Color, alpha: u8 },
    SpinnerDot { cx: i32, cy: i32, color: Color, alpha: u8 },
    Text { font: FontId, size: TextSize, x: i32, baseline: i32, color: Color, text: Seq<char> },
    PowerIcon { rect: Rect, color: Color, alpha: u8 },
    Cursor { x: i32, y: i32 },
}

impl View for DrawOp {
    type V = DrawOpView;

    open spec fn view(&self) -> DrawOpView {
        match *self {
            DrawOp::Background => DrawOpView::Background,
            DrawOp::Shadow { rect } => DrawOpView::Shadow { rect },
            DrawOp::Solid { rect, color, alpha } => DrawOpView::Solid { rect, color, alpha },
            DrawOp::Border { rect, thickness, color, alpha } => DrawOpView::Border {
                rect,
                thickness,
                color,
                alpha,
            },
            DrawOp::AvatarDisc { cx, cy, color, alpha } => DrawOpView::AvatarDisc {
                cx,
                cy,
                color,
                alpha,
            },
            DrawOp::AvatarRing { cx, cy, color, alpha } => DrawOpView::AvatarRing {
                cx,
                cy,
                color,
                alpha,
            },
            DrawOp::SpinnerDot { cx, cy, color, alpha } => DrawOpView::SpinnerDot {
                cx,
                cy,
                color,
                alpha,
            },
            DrawOp::Text { font, size, x, baseline, color, text } => DrawOpView::Text {
                font,
                size,
                x,
                baseline,
                color,
                text: text@,
            },
            DrawOp::PowerIcon { rect, color, alpha } => DrawOpView::PowerIcon {
                rect,
                color,
                alpha,
            },
            DrawOp::Cursor { x, y } => DrawOpView::Cursor { x, y },
        }
    }
}

/// The values of a list of steps.
pub open spec fn op_views(list: Seq<DrawOp>) -> Seq<DrawOpView> {
    Seq::new(list.len(), |i: int| list[i]@)
}

proof fn lemma_op_views_push(list: Seq<DrawOp>, op: DrawOp)
    ensures
        op_views(list.push(op)) == op_views(list).push(op@),
{
    assert(op_views(list.push(op)) =~= op_views(list).push(op@));
}

proof fn lemma_op_views_concat(a: Seq<DrawOp>, b: Seq<DrawOp>)
    ensures
        op_views(a + b) == op_views(a) + op_views(b),
{
    assert(op_views(a + b) =~= op_views(a) + op_views(b));
}

/// What a frame shows.
pub struct FrameState<'a> {
    pub login: &'a LoginState,
    pub pointer: Option<(i32, i32)>,
    pub power_menu_open: bool,
    /// The caret blinks: it is shown in the first 0.55 of each second.
    pub caret_on: bool,
    pub paint_background: bool,
}

/// Whether a text fits the width that it has, and if not, which of its
/// beginnings do not fit: `passes[k]` speaks of the first `k + 1` characters.
pub struct Cut {
    pub fits: bool,
    pub passes: Vec<bool>,
}

/// The text as it is shown.
pub open spec fn cut_text(text: Seq<char>, cut: Cut) -> Seq<char> {
    ellipsized(text, cut.fits, cut.passes@)
}

/// What the fonts say of a frame, in whole pixels.
pub struct FrameMetrics {
    /// The size of the panel before it is fitted to the screen.
    pub panel_w: i32,
    pub panel_h: i32,
    /// Ascents and line heights of the medium face at title size, of the
    /// regular face at body and at small size, and of the medium face at field
    /// size.
    pub title_ascent: i32,
    pub title_step: i32,
    pub body_ascent: i32,
    pub small_ascent: i32,
    pub small_step: i32,
    pub field_ascent: i32,
    /// The width of what the field shows.
    pub shown_width: i32,
    /// Where the line below the panel starts so that it is centred.
    pub note_x: i32,
    /// Centre and weight of each dot of the spinner.
    pub spinner: Vec<(i32, i32, u8)>,
    /// Against the width of the panel less 130, less 64 and less 60.
    pub subtitle: Cut,
    pub prompt: Cut,
    pub notices: Vec<Cut>,
    /// Against the width of the screen less 64.
    pub note: Cut,
}

pub open spec fn in_i32(n: int) -> bool {
    i32::MIN <= n <= i32::MAX
}

/// The base line of the prompt.
pub open spec fn prompt_baseline(panel: Rect, m: FrameMetrics) -> int {
    panel.y + panel.h - 124 + m.body_ascent
}

/// The top of the `i`-th notice.
pub open spec fn notice_top(panel: Rect, m: FrameMetrics, i: int) -> int {
    prompt_baseline(panel, m) + 24 + i * m.small_step
}

/// The numbers that the fonts give keep every coordinate within 32 bits, and
/// there is one measurement for each text.
pub open spec fn metrics_fit(width: int, height: int, state: LoginView, m: FrameMetrics) -> bool {
    let l = layout_of(width, height, m.panel_w as int, m.panel_h as int);
    let p = l.panel;
    &&& sizes_fit(width, height, m.panel_w as int, m.panel_h as int)
    &&& in_i32(p.y + 34 + m.title_ascent)
    &&& in_i32(p.y + 34 + m.title_step)
    &&& in_i32(p.y + 34 + m.title_step + m.body_ascent)
    &&& in_i32(prompt_baseline(p, m))
    &&& forall|i: int|
        0 <= i <= notices_of(state).len() ==> in_i32(#[trigger] notice_top(p, m, i)) && (i
            < notices_of(state).len() ==> in_i32(notice_top(p, m, i) + m.small_ascent))
    &&& in_i32(l.field.y + 10 + m.field_ascent)
    &&& in_i32(l.field.x + 18 + m.shown_width)
    &&& in_i32(l.field.x + 18 + m.shown_width + 2)
    &&& in_i32(p.y + p.h + 24 + note_ascent(state, m))
    &&& m.subtitle.passes@.len() == subtitle_of(state).len()
    &&& m.prompt.passes@.len() == prompt_line_of(state).len()
    &&& m.notices@.len() == notices_of(state).len()
    &&& forall|i: int|
        0 <= i < notices_of(state).len() ==> (#[trigger] m.notices@[i]).passes@.len()
            == notices_of(state)[i].1.len()
    &&& note_of(state).3 ==> m.note.passes@.len() == note_of(state).0.len()
}

pub open spec fn note_ascent(state: LoginView, m: FrameMetrics) -> int {
    if note_of(state).1 == TextSize::Body {
        m.body_ascent as int
    } else {
        m.small_ascent as int
    }
}

/// The panel: its shadow, its ground, its border, a coloured bar at the left
/// and a light line at the top.
pub open spec fn panel_ops(panel: Rect) -> Seq<DrawOpView> {
    seq![
        DrawOpView::Shadow { rect: panel },
        DrawOpView::Solid { rect: panel, color: (11, 16, 25), alpha: 232 },
        DrawOpView::Border { rect: panel, thickness: 2, color: (147, 172, 193), alpha: 84 },
        DrawOpView::Solid {
            rect: Rect { x: panel.x, y: panel.y, w: 5, h: panel.h },
            color: (77, 152, 218),
            alpha: 140,
        },
        DrawOpView::Solid {
            rect: Rect { x: panel.x, y: panel.y, w: panel.w, h: 1 },
            color: (255, 255, 255),
            alpha: 24,
        },
    ]
}

fn draw_panel(panel: Rect) -> (r: Vec<DrawOp>)
    ensures
        op_views(r@) == panel_ops(panel),
{
    let mut out: Vec<DrawOp> = Vec::new();
    out.push(DrawOp::Shadow { rect: panel });
    out.push(DrawOp::Solid { rect: panel, color: (11, 16, 25), alpha: 232 });
    out.push(DrawOp::Border { rect: panel, thickness: 2, color: (147, 172, 193), alpha: 84 });
    out.push(
        DrawOp::Solid {
            rect: Rect { x: panel.x, y: panel.y, w: 5, h: panel.h },
            color: (77, 152, 218),
            alpha: 140,
        },
    );
    out.push(
        DrawOp::Solid {
            rect: Rect { x: panel.x, y: panel.y, w: panel.w, h: 1 },
            color: (255, 255, 255),
            alpha: 24,
        },
    );
    assert(op_views(out@) =~= panel_ops(panel));
    out
}

/// The avatar with its letter, the headline and the subtitle.
pub open spec fn header_ops(panel: Rect, state: LoginView, m: FrameMetrics) -> Seq<DrawOpView> {
    let cx = (panel.x + 46) as i32;
    let cy = (panel.y + 52) as i32;
    seq![
        DrawOpView::AvatarDisc { cx, cy, color: avatar_color_of(state), alpha: 200 },
        DrawOpView::AvatarRing { cx, cy, color: (255, 255, 255), alpha: 80 },
        DrawOpView::Text {
            font: FontId::Medium,
            size: TextSize::Avatar,
            x: (cx - 9) as i32,
            baseline: (cy + 12) as i32,
            color: (255, 255, 255),
            text: seq![avatar_char_of(state)],
        },
        DrawOpView::Text {
            font: FontId::Medium,
            size: TextSize::Title,
            x: (panel.x + 96) as i32,
            baseline: (panel.y + 34 + m.title_ascent) as i32,
            color: (238, 243, 248),
            text: headline_of(state),
        },
        DrawOpView::Text {
            font: FontId::Regular,
            size: TextSize::Body,
            x: (panel.x + 96) as i32,
            baseline: (panel.y + 34 + m.title_step + m.body_ascent) as i32,
            color: (170, 182, 194),
            text: cut_text(subtitle_of(state), m.subtitle),
        },
    ]
}

/// The panel of a screen.
pub open spec fn is_panel(panel: Rect) -> bool {
    &&& 32 <= panel.x <= 0x4000_0000
    &&& 48 <= panel.y <= 0x4000_0020
    &&& -48 <= panel.w <= 700
    &&& 270 <= panel.h <= 400
}

fn draw_header(panel: Rect, state: &LoginState, m: &FrameMetrics) -> (r: Vec<DrawOp>)
    requires
        is_panel(panel),
        in_i32(panel.y + 34 + m.title_ascent),
        in_i32(panel.y + 34 + m.title_step),
        in_i32(panel.y + 34 + m.title_step + m.body_ascent),
        m.subtitle.passes@.len() == subtitle_of(state@).len(),
    ensures
        op_views(r@) == header_ops(panel, state@, *m),
{
    let cx: i32 = panel.x + 46;
    let cy: i32 = panel.y + 52;
    let mut initial = String::new();
    initial.push(avatar_char(state));
    assert(initial@ =~= seq![avatar_char_of(state@)]);
    let line = subtitle(state);
    let mut out: Vec<DrawOp> = Vec::new();
    out.push(DrawOp::AvatarDisc { cx, cy, color: avatar_color(state), alpha: 200 });
    out.push(DrawOp::AvatarRing { cx, cy, color: (255, 255, 255), alpha: 80 });
    out.push(
        DrawOp::Text {
            font: FontId::Medium,
            size: TextSize::Avatar,
            x: cx - 9,
            baseline: cy + 12,
            color: (255, 255, 255),
            text: initial,
        },
    );
    out.push(
        DrawOp::Text {
            font: FontId::Medium,
            size: TextSize::Title,
            x: panel.x + 96,
            baseline: panel.y + 34 + m.title_ascent,
            color: (238, 243, 248),
            text: headline(state).to_owned(),
        },
    );
    out.push(
        DrawOp::Text {
            font: FontId::Regular,
            size: TextSize::Body,
            x: panel.x + 96,
            baseline: panel.y + 34 + m.title_step + m.body_ascent,
            color: (170, 182, 194),
            text: ellipsize(line.as_str(), m.subtitle.fits, &m.subtitle.passes),
        },
    );
    assert(op_views(out@) =~= header_ops(panel, state@, *m));
    out
}

/// While an answer is awaited, the dots of the spinner.
pub open spec fn spinner_ops(state: LoginView, m: FrameMetrics) -> Seq<DrawOpView> {
    if state is Waiting {
        Seq::new(
            m.spinner@.len(),
            |i: int|
                DrawOpView::SpinnerDot {
                    cx: m.spinner@[i].0,
                    cy: m.spinner@[i].1,
                    color: (220, 180, 64),
                    alpha: m.spinner@[i].2,
                },
        )
    } else {
        Seq::empty()
    }
}

fn draw_spinner(state: &LoginState, m: &FrameMetrics) -> (r: Vec<DrawOp>)
    ensures
        op_views(r@) == spinner_ops(state@, *m),
{
    let mut out: Vec<DrawOp> = Vec::new();
    if let LoginState::Waiting { .. } = state {
        let mut i: usize = 0;
        while i < m.spinner.len()
            invariant
                state@ is Waiting,
                i <= m.spinner.len(),
                op_views(out@) == spinner_ops(state@, *m).take(i as int),
            decreases m.spinner.len() - i,
        {
            let (cx, cy, alpha) = m.spinner[i];
            let op = DrawOp::SpinnerDot { cx, cy, color: (220, 180, 64), alpha };
            proof {
                lemma_op_views_push(out@, op);
                assert(spinner_ops(state@, *m).take(i + 1) =~= spinner_ops(state@, *m).take(
                    i as int,
                ).push(op@));
            }
            out.push(op);
            i += 1;
        }
    }
    assert(op_views(out@) =~= spinner_ops(state@, *m));
    out
}

/// The prompt above the field.
pub open spec fn prompt_ops(panel: Rect, state: LoginView, m: FrameMetrics) -> Seq<DrawOpView> {
    seq![
        DrawOpView::Text {
            font: FontId::Regular,
            size: TextSize::Body,
            x: (panel.x + 30) as i32,
            baseline: prompt_baseline(panel, m) as i32,
            color: (197, 207, 218),
            text: cut_text(prompt_line_of(state), m.prompt),
        },
    ]
}

/// The notices, one below the other.
pub open spec fn notice_ops(panel: Rect, state: LoginView, m: FrameMetrics) -> Seq<DrawOpView> {
    Seq::new(
        notices_of(state).len(),
        |i: int|
            DrawOpView::Text {
                font: FontId::Regular,
                size: TextSize::Small,
                x: (panel.x + 30) as i32,
                baseline: (notice_top(panel, m, i) + m.small_ascent) as i32,
                color: if notices_of(state)[i].0 == AuthMessageStyle::Error {
                    (230, 110, 100)
                } else {
                    (155, 170, 182)
                },
                text: cut_text(notices_of(state)[i].1, m.notices@[i]),
            },
    )
}

fn draw_prompt(panel: Rect, state: &LoginState, m: &FrameMetrics) -> (r: Vec<DrawOp>)
    requires
        is_panel(panel),
        in_i32(prompt_baseline(panel, *m)),
        forall|i: int|
            0 <= i <= notices_of(state@).len() ==> in_i32(#[trigger] notice_top(panel, *m, i)) && (i
                < notices_of(state@).len() ==> in_i32(
                notice_top(panel, *m, i) + m.small_ascent,
            )),
        m.prompt.passes@.len() == prompt_line_of(state@).len(),
        m.notices@.len() == notices_of(state@).len(),
        forall|i: int|
            0 <= i < notices_of(state@).len() ==> (#[trigger] m.notices@[i]).passes@.len()
                == notices_of(state@)[i].1.len(),
    ensures
        op_views(r@) == prompt_ops(panel, state@, *m) + notice_ops(panel, state@, *m),
{
    let line = prompt_line(state);
    let baseline: i32 = panel.y + panel.h - 124 + m.body_ascent;
    let mut out: Vec<DrawOp> = Vec::new();
    out.push(
        DrawOp::Text {
            font: FontId::Regular,
            size: TextSize::Body,
            x: panel.x + 30,
            baseline,
            color: (197, 207, 218),
            text: ellipsize(line.as_str(), m.prompt.fits, &m.prompt.passes),
        },
    );
    let ghost first = prompt_ops(panel, state@, *m);
    let ghost rest = notice_ops(panel, state@, *m);
    assert(op_views(out@) =~= first + rest.take(0));
    assert(notice_top(panel, *m, 0) == baseline + 24) by {
        assert(0 * m.small_step == 0);
    }
    let mut top: i32 = baseline + 24;
    let mut i: usize = 0;
    let n: usize = notice_count(state);
    while i < n
        invariant
            n == notices_of(state@).len(),
            i <= n,
            is_panel(panel),
            top == notice_top(panel, *m, i as int),
            forall|i: int|
                0 <= i <= notices_of(state@).len() ==> in_i32(#[trigger] notice_top(panel, *m, i))
                    && (i < notices_of(state@).len() ==> in_i32(
                    notice_top(panel, *m, i) + m.small_ascent,
                )),
            m.notices@.len() == notices_of(state@).len(),
            forall|i: int|
                0 <= i < notices_of(state@).len() ==> (#[trigger] m.notices@[i]).passes@.len()
                    == notices_of(state@)[i].1.len(),
            first == prompt_ops(panel, state@, *m),
            rest == notice_ops(panel, state@, *m),
            op_views(out@) == first + rest.take(i as int),
        decreases n - i,
    {
        let (style, msg) = notice(state, i);
        assert(in_i32(notice_top(panel, *m, i as int) + m.small_ascent));
        assert(in_i32(notice_top(panel, *m, i + 1)));
        assert(notice_top(panel, *m, i + 1) == top + m.small_step) by (nonlinear_arith)
            requires
                top == prompt_baseline(panel, *m) + 24 + i * m.small_step,
                notice_top(panel, *m, i + 1) == prompt_baseline(panel, *m) + 24 + (i + 1)
                    * m.small_step,
        ;
        assert(m.notices@[i as int].passes@.len() == notices_of(state@)[i as int].1.len());
        let cut = &m.notices[i];
        let op = DrawOp::Text {
            font: FontId::Regular,
            size: TextSize::Small,
            x: panel.x + 30,
            baseline: top + m.small_ascent,
            color: if style == AuthMessageStyle::Error {
                (230, 110, 100)
            } else {
                (155, 170, 182)
            },
            text: ellipsize(msg.as_str(), cut.fits, &cut.passes),
        };
        proof {
            lemma_op_views_push(out@, op);
            assert(op@ == rest[i as int]);
            assert(first + rest.take(i + 1) =~= (first + rest.take(i as int)).push(op@));
        }
        out.push(op);
        top = top + m.small_step;
        i += 1;
    }
    assert(rest.take(i as int) =~= rest);
    out
}

/// The field takes input.
pub open spec fn field_active(state: LoginView) -> bool {
    state is EnterUsername || state is Prompt
}

/// The field: its ground, its border, its text or a placeholder, and the caret
/// behind the text.
pub open spec fn field_ops(
    field: Rect,
    state: LoginView,
    pointer: Option<(i32, i32)>,
    caret_on: bool,
    m: FrameMetrics,
) -> Seq<DrawOpView> {
    let active = field_active(state);
    let hover = hovered(pointer, field);
    let shown = field_text_of(state);
    let x = (field.x + 18) as i32;
    let baseline = (field.y + 10 + m.field_ascent) as i32;
    let front = seq![
        DrawOpView::Solid {
            rect: field,
            color: (19, 26, 39),
            alpha: if active || hover {
                204
            } else {
                180
            },
        },
        DrawOpView::Border {
            rect: field,
            thickness: 2,
            color: if active {
                (94, 156, 221)
            } else {
                (118, 132, 149)
            },
            alpha: if hover {
                150
            } else {
                96
            },
        },
        if shown.len() > 0 {
            DrawOpView::Text {
                font: FontId::Medium,
                size: TextSize::Field,
                x,
                baseline,
                color: (245, 247, 250),
                text: shown,
            }
        } else {
            DrawOpView::Text {
                font: FontId::Regular,
                size: TextSize::Field,
                x,
                baseline,
                color: (113, 130, 146),
                text: placeholder_of(state),
            }
        },
    ];
    if active && caret_on {
        front.push(
            DrawOpView::Solid {
                rect: Rect {
                    x: (x + m.shown_width + 2) as i32,
                    y: (field.y + 11) as i32,
                    w: 2,
                    h: 26,
                },
                color: (245, 247, 250),
                alpha: 220,
            },
        )
    } else {
        front
    }
}

fn draw_field(
    field: Rect,
    state: &LoginState,
    pointer: Option<(i32, i32)>,
    caret_on: bool,
    m: &FrameMetrics,
) -> (r: Vec<DrawOp>)
    requires
        0 <= field.x <= 0x4000_0100,
        0 <= field.y <= 0x4000_0200,
        in_i32(field.y + 10 + m.field_ascent),
        in_i32(field.x + 18 + m.shown_width),
        in_i32(field.x + 18 + m.shown_width + 2),
    ensures
        op_views(r@) == field_ops(field, state@, pointer, caret_on, *m),
{
    let active = match state {
        LoginState::EnterUsername { .. } => true,
        LoginState::Prompt { .. } => true,
        _ => false,
    };
    let over = hover(pointer, field);
    let mut out: Vec<DrawOp> = Vec::new();
    out.push(
        DrawOp::Solid {
            rect: field,
            color: (19, 26, 39),
            alpha: if active || over {
                204
            } else {
                180
            },
        },
    );
    out.push(
        DrawOp::Border {
            rect: field,
            thickness: 2,
            color: if active {
                (94, 156, 221)
            } else {
                (118, 132, 149)
            },
            alpha: if over {
                150
            } else {
                96
            },
        },
    );
    let shown = field_text(state);
    let x: i32 = field.x + 18;
    let baseline: i32 = field.y + 10 + m.field_ascent;
    if !shown.as_str().is_empty() {
        out.push(
            DrawOp::Text {
                font: FontId::Medium,
                size: TextSize::Field,
                x,
                baseline,
                color: (245, 247, 250),
                text: shown,
            },
        );
    } else {
        out.push(
            DrawOp::Text {
                font: FontId::Regular,
                size: TextSize::Field,
                x,
                baseline,
                color: (113, 130, 146),
                text: placeholder(state).to_owned(),
            },
        );
    }
    if active && caret_on {
        out.push(
            DrawOp::Solid {
                rect: Rect { x: x + m.shown_width + 2, y: field.y + 11, w: 2, h: 26 },
                color: (245, 247, 250),
                alpha: 220,
            },
        );
    }
    assert(op_views(out@) =~= field_ops(field, state@, pointer, caret_on, *m));
    out
}

/// The line below the panel.
pub open spec fn note_ops(panel: Rect, state: LoginView, m: FrameMetrics) -> Seq<DrawOpView> {
    let (text, size, color, cut) = note_of(state);
    seq![
        DrawOpView::Text {
            font: FontId::Regular,
            size,
            x: m.note_x,
            baseline: (panel.y + panel.h + 24 + note_ascent(state, m)) as i32,
            color,
            text: if cut {
                cut_text(text, m.note)
            } else {
                text
            },
        },
    ]
}

fn draw_note(panel: Rect, state: &LoginState, m: &FrameMetrics) -> (r: Vec<DrawOp>)
    requires
        is_panel(panel),
        in_i32(panel.y + panel.h + 24 + note_ascent(state@, *m)),
        note_of(state@).3 ==> m.note.passes@.len() == note_of(state@).0.len(),
    ensures
        op_views(r@) == note_ops(panel, state@, *m),
{
    let (line, size, color, cut) = note(state);
    let ascent: i32 = if size == TextSize::Body {
        m.body_ascent
    } else {
        m.small_ascent
    };
    let text = if cut {
        ellipsize(line.as_str(), m.note.fits, &m.note.passes)
    } else {
        line
    };
    let mut out: Vec<DrawOp> = Vec::new();
    out.push(
        DrawOp::Text {
            font: FontId::Regular,
            size,
            x: m.note_x,
            baseline: panel.y + panel.h + 24 + ascent,
            color,
            text,
        },
    );
    assert(op_views(out@) =~= note_ops(panel, state@, *m));
    out
}

/// The power button, brighter under the pointer and while its menu is open.
pub open spec fn button_ops(button: Rect, pointer: Option<(i32, i32)>, open: bool) -> Seq<
    DrawOpView,
> {
    let lit = hovered(pointer, button) || open;
    seq![
        DrawOpView::Shadow { rect: button },
        DrawOpView::Solid {
            rect: button,
            color: if open {
                (26, 35, 48)
            } else {
                (14, 20, 31)
            },
            alpha: 238,
        },
        DrawOpView::Border {
            rect: button,
            thickness: 2,
            color: if lit {
                (233, 240, 247)
            } else {
                (149, 166, 183)
            },
            alpha: if lit {
                160
            } else {
                96
            },
        },
        DrawOpView::PowerIcon {
            rect: button,
            color: if lit {
                (237, 243, 249)
            } else {
                (168, 184, 199)
            },
            alpha: 215,
        },
    ]
}

fn draw_button(button: Rect, pointer: Option<(i32, i32)>, open: bool) -> (r: Vec<DrawOp>)
    ensures
        op_views(r@) == button_ops(button, pointer, open),
{
    let lit = hover(pointer, button) || open;
    let mut out: Vec<DrawOp> = Vec::new();
    out.push(DrawOp::Shadow { rect: button });
    out.push(
        DrawOp::Solid {
            rect: button,
            color: if open {
                (26, 35, 48)
            } else {
                (14, 20, 31)
            },
            alpha: 238,
        },
    );
    out.push(
        DrawOp::Border {
            rect: button,
            thickness: 2,
            color: if lit {
                (233, 240, 247)
            } else {
                (149, 166, 183)
            },
            alpha: if lit {
                160
            } else {
                96
            },
        },
    );
    out.push(
        DrawOp::PowerIcon {
            rect: button,
            color: if lit {
                (237, 243, 249)
            } else {
                (168, 184, 199)
            },
            alpha: 215,
        },
    );
    assert(op_views(out@) =~= button_ops(button, pointer, open));
    out
}

/// One item of the power menu: highlighted under the pointer.
pub open spec fn item_ops(item: (PowerAction, Rect), pointer: Option<(i32, i32)>) -> Seq<
    DrawOpView,
> {
    let (action, rect) = item;
    let label = |color: Color|
        DrawOpView::Text {
            font: FontId::Regular,
            size: TextSize::Body,
            x: (rect.x + 16) as i32,
            baseline: (rect.y + 27) as i32,
            color,
            text: action.spec_label(),
        };
    if hovered(pointer, rect) {
        seq![
            DrawOpView::Solid { rect, color: (33, 44, 60), alpha: 230 },
            DrawOpView::Border { rect, thickness: 1, color: (97, 154, 221), alpha: 120 },
            label((245u8, 247u8, 250u8)),
        ]
    } else {
        seq![label((211u8, 219u8, 227u8))]
    }
}

/// The items of the power menu, from the top.
pub open spec fn items_ops(
    items: Seq<(PowerAction, Rect)>,
    pointer: Option<(i32, i32)>,
) -> Seq<DrawOpView>
    decreases items.len(),
{
    if items.len() == 0 {
        Seq::empty()
    } else {
        items_ops(items.drop_last(), pointer) + item_ops(items.last(), pointer)
    }
}

/// The power menu.
pub open spec fn menu_ops(menu: Rect, pointer: Option<(i32, i32)>) -> Seq<DrawOpView> {
    seq![
        DrawOpView::Shadow { rect: menu },
        DrawOpView::Solid { rect: menu, color: (10, 15, 24), alpha: 244 },
        DrawOpView::Border { rect: menu, thickness: 2, color: (116, 134, 153), alpha: 108 },
    ] + items_ops(menu_items(menu), pointer)
}

fn draw_item(item: (PowerAction, Rect), pointer: Option<(i32, i32)>) -> (r: Vec<DrawOp>)
    requires
        item.1.x <= i32::MAX - 16,
        item.1.y <= i32::MAX - 27,
    ensures
        op_views(r@) == item_ops(item, pointer),
{
    let (action, rect) = item;
    let over = hover(pointer, rect);
    let mut out: Vec<DrawOp> = Vec::new();
    if over {
        out.push(DrawOp::Solid { rect, color: (33, 44, 60), alpha: 230 });
        out.push(DrawOp::Border { rect, thickness: 1, color: (97, 154, 221), alpha: 120 });
    }
    out.push(
        DrawOp::Text {
            font: FontId::Regular,
            size: TextSize::Body,
            x: rect.x + 16,
            baseline: rect.y + 27,
            color: if over {
                (245, 247, 250)
            } else {
                (211, 219, 227)
            },
            text: action.label().to_owned(),
        },
    );
    assert(op_views(out@) =~= item_ops(item, pointer));
    out
}

fn draw_menu(
    menu: Rect,
    items: &Vec<(PowerAction, Rect)>,
    pointer: Option<(i32, i32)>,
) -> (r: Vec<DrawOp>)
    requires
        items@ == menu_items(menu),
        0 <= menu.x <= i32::MAX - 200,
        -1000 <= menu.y <= 1000,
        menu.w == 220,
    ensures
        op_views(r@) == menu_ops(menu, pointer),
{
    let mut out: Vec<DrawOp> = Vec::new();
    out.push(DrawOp::Shadow { rect: menu });
    out.push(DrawOp::Solid { rect: menu, color: (10, 15, 24), alpha: 244 });
    out.push(DrawOp::Border { rect: menu, thickness: 2, color: (116, 134, 153), alpha: 108 });
    let ghost front = op_views(out@);
    let mut i: usize = 0;
    assert(front + items_ops(items@.take(0), pointer) =~= front);
    while i < items.len()
        invariant
            items@ == menu_items(menu),
            0 <= menu.x <= i32::MAX - 200,
            -1000 <= menu.y <= 1000,
            menu.w == 220,
            i <= items.len(),
            op_views(out@) == front + items_ops(items@.take(i as int), pointer),
        decreases items.len() - i,
    {
        let mut part = draw_item(items[i], pointer);
        proof {
            lemma_op_views_concat(out@, part@);
            assert(items@.take(i + 1).drop_last() =~= items@.take(i as int));
            assert(front + items_ops(items@.take(i + 1), pointer) =~= front + items_ops(
                items@.take(i as int),
                pointer,
            ) + op_views(part@));
        }
        out.append(&mut part);
        i += 1;
    }
    assert(items@.take(i as int) =~= items@);
    out
}

/// The whole frame, from the back to the front.
pub open spec fn frame_ops(
    width: int,
    height: int,
    state: LoginView,
    pointer: Option<(i32, i32)>,
    menu_open: bool,
    caret_on: bool,
    paint_background: bool,
    m: FrameMetrics,
) -> Seq<DrawOpView> {
    let l = layout_of(width, height, m.panel_w as int, m.panel_h as int);
    (if paint_background {
        seq![DrawOpView::Background]
    } else {
        Seq::empty()
    }) + panel_ops(l.panel) + header_ops(l.panel, state, m) + spinner_ops(state, m) + (prompt_ops(
        l.panel,
        state,
        m,
    ) + notice_ops(l.panel, state, m)) + field_ops(l.field, state, pointer, caret_on, m) + note_ops(
        l.panel,
        state,
        m,
    ) + button_ops(l.power_button, pointer, menu_open) + (if menu_open {
        menu_ops(menu_of(l.power_button, height), pointer)
    } else {
        Seq::empty()
    }) + (match pointer {
        Some((x, y)) => seq![DrawOpView::Cursor { x, y }],
        None => Seq::empty(),
    })
}

/// The items that can be clicked: those of the menu, while it is open.
pub open spec fn clickable_items(width: int, height: int, menu_open: bool) -> Seq<
    (PowerAction, Rect),
> {
    if menu_open {
        menu_items(menu_of(power_button_of(width), height))
    } else {
        Seq::empty()
    }
}

/// All of a frame, as its state and the fonts have it.
pub open spec fn frame_of(
    width: int,
    height: int,
    state: FrameState<'_>,
    m: FrameMetrics,
) -> Seq<DrawOpView> {
    frame_ops(
        width,
        height,
        state.login@,
        state.pointer,
        state.power_menu_open,
        state.caret_on,
        state.paint_background,
        m,
    )
}

/// Where a frame can be clicked.
pub open spec fn targets_of(
    width: int,
    height: int,
    state: FrameState<'_>,
    m: FrameMetrics,
) -> TargetsView {
    TargetsView {
        power_button: power_button_of(width),
        power_menu_items: clickable_items(width, height, state.power_menu_open),
        field: layout_of(width, height, m.panel_w as int, m.panel_h as int).field,
    }
}

/// Where a frame can be clicked follows from the size of the screen and of the
/// panel, and from whether the menu is open: not from the login, the pointer,
/// the caret or the background. So all renderers of [`targets_of`] agree, those
/// that paint the background and those that do not. While the menu is open its
/// four actions can be clicked, in order and each at a place of its own; while it
/// is closed there are none.
pub proof fn law_hit_targets(
    width: int,
    height: int,
    a: FrameState<'_>,
    b: FrameState<'_>,
    ma: FrameMetrics,
    mb: FrameMetrics,
    i: int,
    j: int,
    px: int,
    py: int,
)
    requires
        0 <= width <= i32::MAX,
        0 <= height <= i32::MAX,
        a.power_menu_open == b.power_menu_open,
        ma.panel_w == mb.panel_w,
        ma.panel_h == mb.panel_h,
    ensures
        targets_of(width, height, a, ma) == targets_of(width, height, b, mb),
        ({
            let items = targets_of(width, height, a, ma).power_menu_items;
            &&& items.len() == 0 <==> !a.power_menu_open
            &&& a.power_menu_open ==> items.len() == 4
            &&& 0 <= i < items.len() ==> items[i].0 == menu_actions()[i]
            &&& 0 <= i < items.len() && 0 <= j < items.len() && within(items[i].1, px, py)
                && within(items[j].1, px, py) ==> i == j
        }),
{
    let items = targets_of(width, height, a, ma).power_menu_items;
    if 0 <= i < items.len() && 0 <= j < items.len() && within(items[i].1, px, py) {
        law_menu_items_apart(width, height, i, j, px, py);
    }
}

fn narrow(n: i64) -> (r: bool)
    ensures
        r == in_i32(n as int),
{
    -0x8000_0000 <= n && n <= 0x7FFF_FFFF
}

/// Whether the notices stay in range and have their measurements.
fn notices_ok(panel: Rect, state: &LoginState, m: &FrameMetrics) -> (r: bool)
    requires
        is_panel(panel),
        in_i32(prompt_baseline(panel, *m)),
    ensures
        r == {
            &&& forall|i: int|
                0 <= i <= notices_of(state@).len() ==> in_i32(#[trigger] notice_top(panel, *m, i))
                    && (i < notices_of(state@).len() ==> in_i32(
                    notice_top(panel, *m, i) + m.small_ascent,
                ))
            &&& m.notices@.len() == notices_of(state@).len()
            &&& forall|i: int|
                0 <= i < notices_of(state@).len() ==> (#[trigger] m.notices@[i]).passes@.len()
                    == notices_of(state@)[i].1.len()
        },
{
    let n: usize = notice_count(state);
    if m.notices.len() != n {
        return false;
    }
    assert(notice_top(panel, *m, 0) == prompt_baseline(panel, *m) + 24) by {
        assert(0 * m.small_step == 0);
    }
    let mut top: i64 = panel.y as i64 + panel.h as i64 - 124 + m.body_ascent as i64 + 24;
    let mut i: usize = 0;
    while i < n
        invariant
            n == notices_of(state@).len(),
            m.notices.len() == n,
            i <= n,
            top == notice_top(panel, *m, i as int),
            -0x1_0000_0000 <= top <= 0x1_0000_0000,
            forall|k: int|
                0 <= k < i ==> in_i32(#[trigger] notice_top(panel, *m, k)) && in_i32(
                    notice_top(panel, *m, k) + m.small_ascent,
                ),
            forall|k: int|
                0 <= k < i ==> (#[trigger] m.notices@[k]).passes@.len() == notices_of(
                    state@,
                )[k].1.len(),
        decreases n - i,
    {
        let (_, msg) = notice(state, i);
        if !narrow(top) || !narrow(top + m.small_ascent as i64) {
            assert(!(in_i32(notice_top(panel, *m, i as int)) && in_i32(
                notice_top(panel, *m, i as int) + m.small_ascent,
            )));
            return false;
        }
        if m.notices[i].passes.len() != chars_of(msg.as_str()).len() {
            assert(m.notices@[i as int].passes@.len() != notices_of(state@)[i as int].1.len());
            return false;
        }
        assert(notice_top(panel, *m, i + 1) == top + m.small_step) by (nonlinear_arith)
            requires
                top == prompt_baseline(panel, *m) + 24 + i * m.small_step,
                notice_top(panel, *m, i + 1) == prompt_baseline(panel, *m) + 24 + (i + 1)
                    * m.small_step,
        ;
        top = top + m.small_step as i64;
        i += 1;
    }
    let r = narrow(top);
    proof {
        if r {
            assert forall|k: int| 0 <= k <= notices_of(state@).len() implies in_i32(
                #[trigger] notice_top(panel, *m, k),
            ) && (k < notices_of(state@).len() ==> in_i32(
                notice_top(panel, *m, k) + m.small_ascent,
            )) by {
                assert(k == n ==> in_i32(notice_top(panel, *m, k)));
            }
        } else {
            assert(!in_i32(notice_top(panel, *m, n as int)));
        }
    }
    r
}

/// Whether a frame can be composed of what the fonts say.
pub fn can_compose(width: i32, height: i32, state: &LoginState, m: &FrameMetrics) -> (r: bool)
    ensures
        r == metrics_fit(width as int, height as int, state@, *m),
{
    if width < 0 || height < 0 || m.panel_w < 420 || m.panel_w > 700 || m.panel_h < 270
        || m.panel_h > 400 {
        return false;
    }
    let l = frame_layout(width, height, m.panel_w, m.panel_h);
    let p = l.panel;
    let title: i64 = p.y as i64 + 34;
    let prompt: i64 = p.y as i64 + p.h as i64 - 124 + m.body_ascent as i64;
    if !narrow(title + m.title_ascent as i64) || !narrow(title + m.title_step as i64) || !narrow(
        title + m.title_step as i64 + m.body_ascent as i64,
    ) || !narrow(prompt) {
        return false;
    }
    if !notices_ok(p, state, m) {
        return false;
    }
    let field_x: i64 = l.field.x as i64 + 18 + m.shown_width as i64;
    if !narrow(l.field.y as i64 + 10 + m.field_ascent as i64) || !narrow(field_x) || !narrow(
        field_x + 2,
    ) {
        return false;
    }
    let (line, size, _, is_cut) = note(state);
    let ascent: i64 = if size == TextSize::Body {
        m.body_ascent as i64
    } else {
        m.small_ascent as i64
    };
    narrow(p.y as i64 + p.h as i64 + 24 + ascent) && m.subtitle.passes.len() == chars_of(
        subtitle(state).as_str(),
    ).len() && m.prompt.passes.len() == chars_of(prompt_line(state).as_str()).len() && (!is_cut
        || m.note.passes.len() == chars_of(line.as_str()).len())
}

/// Composes a frame: what is drawn, and what can be clicked.
pub fn compose_frame(width: i32, height: i32, state: &FrameState, m: &FrameMetrics) -> (r: (
    Vec<DrawOp>,
    FrameHitTargets,
))
    requires
        metrics_fit(width as int, height as int, state.login@, *m),
    ensures
        op_views(r.0@) == frame_of(width as int, height as int, *state, *m),
        r.1@ == targets_of(width as int, height as int, *state, *m),
{
    let l = frame_layout(width, height, m.panel_w, m.panel_h);
    let mut out: Vec<DrawOp> = Vec::new();
    if state.paint_background {
        out.push(DrawOp::Background);
        assert(op_views(out@) =~= seq![DrawOpView::Background]);
    } else {
        assert(op_views(out@) =~= Seq::<DrawOpView>::empty());
    }
    let mut panel = draw_panel(l.panel);
    let mut header = draw_header(l.panel, state.login, m);
    let mut spinner = draw_spinner(state.login, m);
    let mut prompt = draw_prompt(l.panel, state.login, m);
    let mut field = draw_field(l.field, state.login, state.pointer, state.caret_on, m);
    let mut below = draw_note(l.panel, state.login, m);
    let mut button = draw_button(l.power_button, state.pointer, state.power_menu_open);
    let mut items: Vec<(PowerAction, Rect)> = Vec::new();
    let mut menu: Vec<DrawOp> = Vec::new();
    assert(op_views(menu@) =~= Seq::<DrawOpView>::empty());
    if state.power_menu_open {
        let rect = power_menu(l.power_button, height);
        items = power_menu_items(rect);
        menu = draw_menu(rect, &items, state.pointer);
    }
    let mut cursor: Vec<DrawOp> = Vec::new();
    assert(op_views(cursor@) =~= Seq::<DrawOpView>::empty());
    if let Some((x, y)) = state.pointer {
        cursor.push(DrawOp::Cursor { x, y });
        assert(op_views(cursor@) =~= seq![DrawOpView::Cursor { x, y }]);
    }
    proof {
        let a = out@ + panel@;
        let b = a + header@;
        let c = b + spinner@;
        let d = c + prompt@;
        let e = d + field@;
        let f = e + below@;
        let g = f + button@;
        let h = g + menu@;
        lemma_op_views_concat(out@, panel@);
        lemma_op_views_concat(a, header@);
        lemma_op_views_concat(b, spinner@);
        lemma_op_views_concat(c, prompt@);
        lemma_op_views_concat(d, field@);
        lemma_op_views_concat(e, below@);
        lemma_op_views_concat(f, button@);
        lemma_op_views_concat(g, menu@);
        lemma_op_views_concat(h, cursor@);
    }
    out.append(&mut panel);
    out.append(&mut header);
    out.append(&mut spinner);
    out.append(&mut prompt);
    out.append(&mut field);
    out.append(&mut below);
    out.append(&mut button);
    out.append(&mut menu);
    out.append(&mut cursor);
    (
        out,
        FrameHitTargets { power_button: l.power_button, power_menu_items: items, field: l.field },
    )
}

/// A frame shows nothing of a secret but how many characters it has: two
/// secrets of the same length give the same frame.
pub proof fn law_secret_is_not_shown(
    width: int,
    height: int,
    username: Seq<char>,
    message: Seq<char>,
    notices: Seq<(AuthMessageStyle, Seq<char>)>,
    a: Seq<char>,
    b: Seq<char>,
    pointer: Option<(i32, i32)>,
    menu_open: bool,
    caret_on: bool,
    paint_background: bool,
    m: FrameMetrics,
)
    requires
        a.len() == b.len(),
    ensures
        ({
            let style = AuthMessageStyle::Secret;
            let x = LoginView::Prompt { username, style, message, input: a, notices };
            let y = LoginView::Prompt { username, style, message, input: b, notices };
            frame_ops(width, height, x, pointer, menu_open, caret_on, paint_background, m)
                == frame_ops(width, height, y, pointer, menu_open, caret_on, paint_background, m)
        }),
{
    let style = AuthMessageStyle::Secret;
    let x = LoginView::Prompt { username, style, message, input: a, notices };
    let y = LoginView::Prompt { username, style, message, input: b, notices };
    let l = layout_of(width, height, m.panel_w as int, m.panel_h as int);
    assert(notices_of(x) == notices_of(y));
    assert(notice_ops(l.panel, x, m) =~= notice_ops(l.panel, y, m));
    assert(header_ops(l.panel, x, m) =~= header_ops(l.panel, y, m));
    assert(spinner_ops(x, m) =~= spinner_ops(y, m));
    assert(field_text_of(x) =~= field_text_of(y));
}

// ---------------------------------------------------------------------------
// Painting into a pixel buffer
// ---------------------------------------------------------------------------

pub open spec fn pixels_of(r: Rect) -> Seq<(int, int)> {
    rect_pixels(r.x as int, r.y as int, r.w as int, r.h as int)
}

pub open spec fn fits(pitch: u32, r: Rect, alpha: u8) -> bool {
    rect_fits(pitch, r.x as int, r.y as int, r.w as int, r.h as int, alpha)
}

/// Blends a rectangle.
pub fn fill_rect(buf: &mut [u8], pitch: u32, rect: Rect, color: Color, alpha: u8)
    requires
        fits(pitch, rect, alpha),
    ensures
        final(buf)@ == painted(old(buf)@, pitch, pixels_of(rect), color, alpha),
{
    fill(buf, pitch, rect.x, rect.y, rect.w, rect.h, color, alpha);
}

/// The thickness of a border: at least one pixel, at most the rectangle.
pub open spec fn border_width(rect: Rect, thickness: int) -> int {
    lesser(
        lesser(greater(thickness, 1), greater(rect.w as int, 1)),
        greater(rect.h as int, 1),
    )
}

/// The sides of a border: top, bottom, left, right.
pub open spec fn border_sides(rect: Rect, thickness: int) -> Seq<Rect> {
    let t = border_width(rect, thickness);
    seq![
        Rect { x: rect.x, y: rect.y, w: rect.w, h: t as i32 },
        Rect { x: rect.x, y: (rect.y + rect.h - t) as i32, w: rect.w, h: t as i32 },
        Rect { x: rect.x, y: rect.y, w: t as i32, h: rect.h },
        Rect { x: (rect.x + rect.w - t) as i32, y: rect.y, w: t as i32, h: rect.h },
    ]
}

/// The pixels of a list of rectangles, one after the other.
pub open spec fn pixels_of_all(rects: Seq<Rect>) -> Seq<(int, int)>
    decreases rects.len(),
{
    if rects.len() == 0 {
        Seq::empty()
    } else {
        pixels_of_all(rects.drop_last()) + pixels_of(rects.last())
    }
}

/// The sides of a border are rectangles of 32 bits, and each of them fits.
pub open spec fn border_fits(pitch: u32, rect: Rect, thickness: int, alpha: u8) -> bool {
    let t = border_width(rect, thickness);
    &&& in_i32(rect.x + rect.w)
    &&& in_i32(rect.y + rect.h)
    &&& in_i32(rect.x + rect.w - t)
    &&& in_i32(rect.y + rect.h - t)
    &&& forall|i: int| 0 <= i < 4 ==> fits(pitch, #[trigger] border_sides(rect, thickness)[i], alpha)
}

/// The sides of a border, as rectangles.
pub fn sides_of_border(rect: Rect, thickness: i32) -> (r: Vec<Rect>)
    requires
        in_i32(rect.x + rect.w),
        in_i32(rect.y + rect.h),
        in_i32(rect.x + rect.w - border_width(rect, thickness as int)),
        in_i32(rect.y + rect.h - border_width(rect, thickness as int)),
    ensures
        r@ == border_sides(rect, thickness as int),
{
    let mut t: i32 = if thickness >= 1 {
        thickness
    } else {
        1
    };
    let w: i32 = if rect.w >= 1 {
        rect.w
    } else {
        1
    };
    let h: i32 = if rect.h >= 1 {
        rect.h
    } else {
        1
    };
    if t > w {
        t = w;
    }
    if t > h {
        t = h;
    }
    let mut out: Vec<Rect> = Vec::new();
    out.push(Rect { x: rect.x, y: rect.y, w: rect.w, h: t });
    out.push(Rect { x: rect.x, y: rect.y + rect.h - t, w: rect.w, h: t });
    out.push(Rect { x: rect.x, y: rect.y, w: t, h: rect.h });
    out.push(Rect { x: rect.x + rect.w - t, y: rect.y, w: t, h: rect.h });
    assert(out@ =~= border_sides(rect, thickness as int));
    out
}

/// Blends the four sides of a rectangle.
pub fn draw_border(
    buf: &mut [u8],
    pitch: u32,
    rect: Rect,
    thickness: i32,
    color: Color,
    alpha: u8,
)
    requires
        border_fits(pitch, rect, thickness as int, alpha),
    ensures
        final(buf)@ == painted(
            old(buf)@,
            pitch,
            pixels_of_all(border_sides(rect, thickness as int)),
            color,
            alpha,
        ),
{
    let sides = sides_of_border(rect, thickness);
    let mut i: usize = 0;
    while i < sides.len()
        invariant
            i <= sides.len(),
            sides@ == border_sides(rect, thickness as int),
            border_fits(pitch, rect, thickness as int, alpha),
            buf@ == painted(
                old(buf)@,
                pitch,
                pixels_of_all(sides@.take(i as int)),
                color,
                alpha,
            ),
        decreases sides.len() - i,
    {
        proof {
            assert(sides@.take(i + 1).drop_last() =~= sides@.take(i as int));
            assert(fits(pitch, border_sides(rect, thickness as int)[i as int], alpha));
            lemma_painted_concat(
                old(buf)@,
                pitch,
                pixels_of_all(sides@.take(i as int)),
                pixels_of(sides@[i as int]),
                color,
                alpha,
            );
        }
        fill_rect(buf, pitch, sides[i], color, alpha);
        i += 1;
    }
    assert(sides@.take(i as int) =~= sides@);
}

/// The `layer`-th layer of a shadow, from the widest to the narrowest.
pub open spec fn shadow_layer(rect: Rect, layer: int) -> Rect {
    Rect {
        x: (rect.x - 8 + layer * 2) as i32,
        y: (rect.y - 8 + layer * 2) as i32,
        w: (rect.w + 16 - layer * 4) as i32,
        h: (rect.h + 16 - layer * 4) as i32,
    }
}

/// The weight of a layer of a shadow.
pub open spec fn shadow_alpha(layer: int) -> u8 {
    (40 - layer * 8) as u8
}

/// The buffer after the first `n` layers of a shadow.
pub open spec fn shadowed(buf: Seq<u8>, pitch: u32, rect: Rect, n: int) -> Seq<u8>
    decreases n,
{
    if n <= 0 {
        buf
    } else {
        painted(
            shadowed(buf, pitch, rect, n - 1),
            pitch,
            pixels_of(shadow_layer(rect, n - 1)),
            (0, 0, 0),
            shadow_alpha(n - 1),
        )
    }
}

pub open spec fn shadow_in_range(rect: Rect) -> bool {
    &&& in_i32(rect.x - 8)
    &&& in_i32(rect.y - 8)
    &&& in_i32(rect.w + 16)
    &&& in_i32(rect.h + 16)
    &&& rect.w >= i32::MIN + 16
    &&& rect.h >= i32::MIN + 16
}

pub open spec fn shadow_fits(pitch: u32, rect: Rect) -> bool {
    &&& shadow_in_range(rect)
    &&& forall|i: int|
        0 <= i < 4 ==> fits(pitch, #[trigger] shadow_layer(rect, i), shadow_alpha(i))
}

/// The layer of a shadow and its weight.
pub fn layer_of_shadow(rect: Rect, layer: i32) -> (r: (Rect, u8))
    requires
        0 <= layer < 4,
        shadow_in_range(rect),
    ensures
        r.0 == shadow_layer(rect, layer as int),
        r.1 == shadow_alpha(layer as int),
{
    let inset: i32 = layer * 2;
    (
        Rect {
            x: rect.x - 8 + inset,
            y: rect.y - 8 + inset,
            w: rect.w + 16 - inset * 2,
            h: rect.h + 16 - inset * 2,
        },
        (40 - layer * 8) as u8,
    )
}

/// Blends the shadow around a rectangle.
pub fn draw_shadow(buf: &mut [u8], pitch: u32, rect: Rect)
    requires
        shadow_fits(pitch, rect),
    ensures
        final(buf)@ == shadowed(old(buf)@, pitch, rect, 4),
{
    let mut layer: i32 = 0;
    while layer < 4
        invariant
            0 <= layer <= 4,
            shadow_fits(pitch, rect),
            buf@ == shadowed(old(buf)@, pitch, rect, layer as int),
        decreases 4 - layer,
    {
        let (r, alpha) = layer_of_shadow(rect, layer);
        assert(fits(pitch, shadow_layer(rect, layer as int), shadow_alpha(layer as int)));
        fill_rect(buf, pitch, r, (0, 0, 0), alpha);
        layer += 1;
    }
}

/// Blends a disc.
pub fn draw_circle(
    buf: &mut [u8],
    pitch: u32,
    cx: i32,
    cy: i32,
    radius: i32,
    color: Color,
    alpha: u8,
)
    requires
        radius < 0 || ring_fits(pitch, cx as int, cy as int, radius as int, 0, alpha),
    ensures
        final(buf)@ == painted(
            old(buf)@,
            pitch,
            ring_pixels(cx as int, cy as int, radius as int, 0),
            color,
            alpha,
        ),
{
    blend_ring(buf, pitch, cx, cy, radius, 0, color, alpha);
}

/// Blends a ring.
pub fn draw_circle_ring(
    buf: &mut [u8],
    pitch: u32,
    cx: i32,
    cy: i32,
    outer_r: i32,
    inner_r: i32,
    color: Color,
    alpha: u8,
)
    requires
        outer_r < 0 || ring_fits(pitch, cx as int, cy as int, outer_r as int, inner_r as int, alpha),
    ensures
        final(buf)@ == painted(
            old(buf)@,
            pitch,
            ring_pixels(cx as int, cy as int, outer_r as int, inner_r as int),
            color,
            alpha,
        ),
{
    blend_ring(buf, pitch, cx, cy, outer_r, inner_r, color, alpha);
}

/// A ring and a stroke at its top.
pub ghost struct PowerSign {
    pub cx: int,
    pub cy: int,
    pub outer: int,
    pub inner: int,
}

/// Half of a number, rounded towards zero.
pub open spec fn half_of(n: int) -> int {
    if n >= 0 {
        n / 2
    } else {
        -((-n) / 2)
    }
}

/// Half of a number, rounded towards zero.
fn half(n: i32) -> (r: i32)
    ensures
        r == half_of(n as int),
{
    if n >= 0 {
        n / 2
    } else {
        (-((-(n as i64)) / 2)) as i32
    }
}

pub open spec fn power_sign(rect: Rect) -> PowerSign {
    let outer = half_of(lesser(rect.w as int, rect.h as int)) - 4;
    PowerSign {
        cx: rect.x + half_of(rect.w as int),
        cy: rect.y + half_of(rect.h as int) - 1,
        outer,
        inner: outer - 4,
    }
}

/// The pixels of the power sign in a rectangle.
pub open spec fn power_pixels(rect: Rect) -> Seq<(int, int)> {
    let s = power_sign(rect);
    ring_pixels(s.cx, s.cy, s.outer, s.inner) + line_pixels(
        s.cx,
        s.cy - s.outer + 2,
        s.cx,
        s.cy - s.inner + 1,
        3,
    )
}

pub open spec fn power_fits(pitch: u32, rect: Rect, alpha: u8) -> bool {
    let s = power_sign(rect);
    &&& in_i32(s.cx)
    &&& in_i32(s.cy + 1)
    &&& in_i32(s.cy)
    &&& in_i32(s.cy - s.outer)
    &&& in_i32(s.cy - s.outer + 2)
    &&& in_i32(s.cy - s.inner + 1)
    &&& s.outer < 0 || ring_fits(pitch, s.cx, s.cy, s.outer, s.inner, alpha)
    &&& line_fits(pitch, s.cx, s.cy - s.outer + 2, s.cx, s.cy - s.inner + 1, 3, alpha)
}

/// Blends the power sign into a rectangle.
pub fn draw_power_icon(buf: &mut [u8], pitch: u32, rect: Rect, color: Color, alpha: u8)
    requires
        power_fits(pitch, rect, alpha),
    ensures
        final(buf)@ == painted(old(buf)@, pitch, power_pixels(rect), color, alpha),
{
    let side: i32 = if rect.w <= rect.h {
        rect.w
    } else {
        rect.h
    };
    let cx: i32 = rect.x + half(rect.w);
    let cy: i32 = rect.y + half(rect.h) - 1;
    let outer: i32 = half(side) - 4;
    let inner: i32 = outer - 4;
    proof {
        let s = power_sign(rect);
        lemma_painted_concat(
            buf@,
            pitch,
            ring_pixels(s.cx, s.cy, s.outer, s.inner),
            line_pixels(s.cx, s.cy - s.outer + 2, s.cx, s.cy - s.inner + 1, 3),
            color,
            alpha,
        );
    }
    draw_circle_ring(buf, pitch, cx, cy, outer, inner, color, alpha);
    draw_line(buf, pitch, cx, cy - outer + 2, cx, cy - inner + 1, 3, color, alpha);
}

/// The corners of the arrow: tip, notch and tail. The tip is the hot spot.
pub open spec fn cursor_corners() -> Seq<(int, int)> {
    seq![
        (0int, 0int),
        (0int, 17int),
        (4int, 13int),
        (7int, 20int),
        (9int, 19int),
        (6int, 12int),
        (11int, 12int),
    ]
}

/// The corners of the arrow.
pub fn cursor_polygon() -> (r: Vec<(i32, i32)>)
    ensures
        points(r@) == cursor_corners(),
{
    let mut out: Vec<(i32, i32)> = Vec::new();
    out.push((0, 0));
    out.push((0, 17));
    out.push((4, 13));
    out.push((7, 20));
    out.push((9, 19));
    out.push((6, 12));
    out.push((11, 12));
    assert(points(out@) =~= cursor_corners());
    out
}

/// The pixels moved by `(ox, oy)`.
pub open spec fn moved(pixels: Seq<(int, int)>, ox: int, oy: int) -> Seq<(int, int)> {
    pixels.map_values(|p: (int, int)| (ox + p.0, oy + p.1))
}

/// The pixels can be moved by `(ox, oy)` within 32 bits.
pub open spec fn movable(pixels: Seq<(int, int)>, ox: int, oy: int) -> bool {
    forall|i: int|
        0 <= i < pixels.len() ==> in_i32(ox + (#[trigger] pixels[i]).0) && in_i32(oy + pixels[i].1)
}

/// The arrow is small.
pub proof fn lemma_arrow_movable(ox: int, oy: int)
    requires
        i32::MIN <= ox <= i32::MAX - 20,
        i32::MIN <= oy <= i32::MAX - 20,
    ensures
        movable(polygon_pixels(cursor_corners()), ox, oy),
{
    assert(boxed(cursor_corners(), 0, 20));
    law_polygon_within_its_corners(cursor_corners(), 0, 20);
}

/// A list of pixels moved by `(ox, oy)`.
pub fn move_all(list: &Vec<(i32, i32)>, ox: i32, oy: i32) -> (r: Vec<(i32, i32)>)
    requires
        forall|i: int|
            0 <= i < list.len() ==> in_i32(ox + (#[trigger] list[i]).0) && in_i32(oy + list[i].1),
    ensures
        points(r@) == moved(points(list@), ox as int, oy as int),
        r.len() == list.len(),
        forall|i: int|
            0 <= i < list.len() ==> (#[trigger] r[i]).0 == ox + list[i].0 && r[i].1 == oy
                + list[i].1,
{
    let mut out: Vec<(i32, i32)> = Vec::new();
    let mut i: usize = 0;
    while i < list.len()
        invariant
            i <= list.len(),
            forall|i: int|
                0 <= i < list.len() ==> in_i32(ox + (#[trigger] list[i]).0) && in_i32(
                    oy + list[i].1,
                ),
            out.len() == i,
            forall|k: int|
                0 <= k < i ==> (#[trigger] out[k]).0 == ox + list[k].0 && out[k].1 == oy
                    + list[k].1,
        decreases list.len() - i,
    {
        let (x, y) = list[i];
        out.push((ox + x, oy + y));
        i += 1;
    }
    assert(points(out@) =~= moved(points(list@), ox as int, oy as int));
    out
}

/// The directions in which the outline of the arrow is moved, and at last the
/// arrow itself.
pub open spec fn cursor_shifts() -> Seq<(int, int)> {
    seq![
        (-1int, -1int),
        (0int, -1int),
        (1int, -1int),
        (-1int, 0int),
        (1int, 0int),
        (-1int, 1int),
        (0int, 1int),
        (1int, 1int),
        (0int, 0int),
    ]
}

/// The directions in which the outline of the arrow is moved, and at last the
/// arrow itself.
pub fn shifts_of_cursor() -> (r: Vec<(i32, i32)>)
    ensures
        points(r@) == cursor_shifts(),
{
    let mut out: Vec<(i32, i32)> = Vec::new();
    out.push((-1, -1));
    out.push((0, -1));
    out.push((1, -1));
    out.push((-1, 0));
    out.push((1, 0));
    out.push((-1, 1));
    out.push((0, 1));
    out.push((1, 1));
    out.push((0, 0));
    assert(points(out@) =~= cursor_shifts());
    out
}

/// The buffer after the first `n` arrows at `(x, y)`: eight dark ones around,
/// one white on top.
pub open spec fn pointed(buf: Seq<u8>, pitch: u32, x: int, y: int, n: int) -> Seq<u8>
    decreases n,
{
    if n <= 0 {
        buf
    } else {
        let (dx, dy) = cursor_shifts()[n - 1];
        painted(
            pointed(buf, pitch, x, y, n - 1),
            pitch,
            moved(polygon_pixels(cursor_corners()), x + dx, y + dy),
            if n == 9 {
                (255, 255, 255)
            } else {
                (12, 14, 18)
            },
            if n == 9 {
                255
            } else {
                235
            },
        )
    }
}

/// A pixel has a place within 32 bits, and is addressable.
pub open spec fn dot_fits(pitch: u32, x: int, y: int) -> bool {
    in_i32(x) && in_i32(y) && addressable(pitch, x, y)
}

/// The outline can be moved by one pixel to each side, and all pixels of the
/// arrow have their place.
pub open spec fn cursor_fits(pitch: u32, x: int, y: int) -> bool {
    &&& i32::MIN + 1 <= x <= i32::MAX - 1
    &&& i32::MIN + 1 <= y <= i32::MAX - 1
    &&& forall|i: int, n: int|
        0 <= i < polygon_pixels(cursor_corners()).len() && 0 <= n < 9 ==> dot_fits(
            pitch,
            x + (#[trigger] cursor_shifts()[n]).0 + (#[trigger] polygon_pixels(
                cursor_corners(),
            )[i]).0,
            y + cursor_shifts()[n].1 + polygon_pixels(cursor_corners())[i].1,
        )
}

/// Blends the arrow with its tip at `(x, y)`.
pub fn draw_cursor(buf: &mut [u8], pitch: u32, x: i32, y: i32)
    requires
        cursor_fits(pitch, x as int, y as int),
    ensures
        final(buf)@ == pointed(old(buf)@, pitch, x as int, y as int, 9),
{
    let corners = cursor_polygon();
    let arrow = polygon_list(&corners);
    let shifts = shifts_of_cursor();
    let mut n: usize = 0;
    while n < shifts.len()
        invariant
            n <= shifts.len(),
            points(shifts@) == cursor_shifts(),
            points(arrow@) == polygon_pixels(cursor_corners()),
            cursor_fits(pitch, x as int, y as int),
            buf@ == pointed(old(buf)@, pitch, x as int, y as int, n as int),
        decreases shifts.len() - n,
    {
        let (dx, dy) = shifts[n];
        assert(shifts.len() == points(shifts@).len());
        assert(points(shifts@)[n as int] == (dx as int, dy as int));
        proof {
            let all = polygon_pixels(cursor_corners());
            assert forall|i: int| 0 <= i < arrow.len() implies dot_fits(
                pitch,
                x + dx + (#[trigger] arrow[i]).0,
                y + dy + arrow[i].1,
            ) by {
                assert(points(arrow@)[i] == (arrow@[i].0 as int, arrow@[i].1 as int));
                assert(dot_fits(
                    pitch,
                    x + cursor_shifts()[n as int].0 + all[i].0,
                    y + cursor_shifts()[n as int].1 + all[i].1,
                ));
            }
        }
        let here = move_all(&arrow, x + dx, y + dy);
        assert forall|i: int| 0 <= i < here.len() implies addressable(
            pitch,
            (#[trigger] here[i]).0 as int,
            here[i].1 as int,
        ) by {
            assert(dot_fits(pitch, x + dx + arrow[i].0, y + dy + arrow[i].1));
        }
        if n == 8 {
            blend_all(buf, pitch, &here, (255, 255, 255), 255);
        } else {
            blend_all(buf, pitch, &here, (12, 14, 18), 235);
        }
        n += 1;
    }
    assert(shifts.len() == points(shifts@).len());
}

/// The buffer after the first `n` pixels of a background, row by row.
pub open spec fn backdrop(
    buf: Seq<u8>,
    pitch: u32,
    width: int,
    colors: Seq<Color>,
    n: int,
) -> Seq<u8>
    decreases n,
{
    if n <= 0 {
        buf
    } else {
        dotted(
            backdrop(buf, pitch, width, colors, n - 1),
            pitch,
            (n - 1) % width,
            (n - 1) / width,
            colors[n - 1],
            255,
        )
    }
}

/// There is a colour for each pixel, and each pixel is addressable.
pub open spec fn backdrop_fits(pitch: u32, width: int, height: int, colors: Seq<Color>) -> bool {
    &&& 0 <= width <= i32::MAX
    &&& 0 <= height <= i32::MAX
    &&& colors.len() == width * height
    &&& width > 0 && height > 0 ==> addressable(pitch, width - 1, height - 1)
}

/// Paints a background: `colors` holds the colour of each pixel, row by row.
pub fn paint_background(
    buf: &mut [u8],
    pitch: u32,
    width: i32,
    height: i32,
    colors: &Vec<Color>,
)
    requires
        backdrop_fits(pitch, width as int, height as int, colors@),
    ensures
        final(buf)@ == backdrop(
            old(buf)@,
            pitch,
            width as int,
            colors@,
            colors.len() as int,
        ),
{
    let mut k: usize = 0;
    let mut row: usize = 0;
    let mut col: usize = 0;
    while k < colors.len()
        invariant
            backdrop_fits(pitch, width as int, height as int, colors@),
            k <= colors@.len(),
            k == row * width + col,
            col <= width,
            k < colors@.len() ==> col < width,
            buf@ == backdrop(old(buf)@, pitch, width as int, colors@, k as int),
        decreases colors@.len() - k,
    {
        proof {
            vstd::arithmetic::div_mod::lemma_fundamental_div_mod_converse(
                k as int,
                width as int,
                row as int,
                col as int,
            );
            assert(row < height) by (nonlinear_arith)
                requires
                    k == row * width + col,
                    k < width * height,
                    0 <= col,
                    width > 0,
            ;
            crate::font::lemma_addressable(
                pitch,
                col as int,
                row as int,
                width - 1,
                height - 1,
            );
        }
        blend_pixel(buf, pitch, col as i32, row as i32, colors[k], 255);
        k += 1;
        col += 1;
        if col == width as usize {
            proof {
                assert((row + 1) * width == row * width + width) by (nonlinear_arith);
            }
            col = 0;
            row += 1;
        }
    }
}

/// Paints the background that is shown before the first frame.
pub fn fill_background(
    buf: &mut [u8],
    pitch: u32,
    width: u32,
    height: u32,
    colors: &Vec<Color>,
)
    requires
        backdrop_fits(pitch, width as int, height as int, colors@),
    ensures
        final(buf)@ == backdrop(
            old(buf)@,
            pitch,
            width as int,
            colors@,
            colors.len() as int,
        ),
{
    paint_background(buf, pitch, width as i32, height as i32, colors);
}

/// What the steps of a frame are painted with: the size of the screen, the
/// colours of the background, and for each step the glyphs of its text.
pub struct Palette {
    pub width: i32,
    pub height: i32,
    pub colors: Vec<Color>,
    pub runs: Vec<Vec<Glyph>>,
}

/// A step can be painted.
pub open spec fn op_fits(pitch: u32, op: DrawOpView, p: Palette, glyphs: Seq<Glyph>) -> bool {
    match op {
        DrawOpView::Background => backdrop_fits(pitch, p.width as int, p.height as int, p.colors@),
        DrawOpView::Shadow { rect } => shadow_fits(pitch, rect),
        DrawOpView::Solid { rect, alpha, .. } => fits(pitch, rect, alpha),
        DrawOpView::Border { rect, thickness, alpha, .. } => border_fits(
            pitch,
            rect,
            thickness as int,
            alpha,
        ),
        DrawOpView::AvatarDisc { cx, cy, alpha, .. } => ring_fits(
            pitch,
            cx as int,
            cy as int,
            27,
            0,
            alpha,
        ),
        DrawOpView::AvatarRing { cx, cy, alpha, .. } => ring_fits(
            pitch,
            cx as int,
            cy as int,
            30,
            24,
            alpha,
        ),
        DrawOpView::SpinnerDot { cx, cy, alpha, .. } => ring_fits(
            pitch,
            cx as int,
            cy as int,
            3,
            0,
            alpha,
        ),
        DrawOpView::Text { .. } => forall|i: int|
            0 <= i < glyphs.len() ==> glyph_fits(pitch, #[trigger] glyphs[i]),
        DrawOpView::PowerIcon { rect, alpha, .. } => power_fits(pitch, rect, alpha),
        DrawOpView::Cursor { x, y } => cursor_fits(pitch, x as int, y as int),
    }
}

/// The buffer after one step.
pub open spec fn after_op(
    buf: Seq<u8>,
    pitch: u32,
    op: DrawOpView,
    p: Palette,
    glyphs: Seq<Glyph>,
) -> Seq<u8> {
    match op {
        DrawOpView::Background => backdrop(
            buf,
            pitch,
            p.width as int,
            p.colors@,
            p.colors@.len() as int,
        ),
        DrawOpView::Shadow { rect } => shadowed(buf, pitch, rect, 4),
        DrawOpView::Solid { rect, color, alpha } => painted(
            buf,
            pitch,
            pixels_of(rect),
            color,
            alpha,
        ),
        DrawOpView::Border { rect, thickness, color, alpha } => painted(
            buf,
            pitch,
            pixels_of_all(border_sides(rect, thickness as int)),
            color,
            alpha,
        ),
        DrawOpView::AvatarDisc { cx, cy, color, alpha } => painted(
            buf,
            pitch,
            ring_pixels(cx as int, cy as int, 27, 0),
            color,
            alpha,
        ),
        DrawOpView::AvatarRing { cx, cy, color, alpha } => painted(
            buf,
            pitch,
            ring_pixels(cx as int, cy as int, 30, 24),
            color,
            alpha,
        ),
        DrawOpView::SpinnerDot { cx, cy, color, alpha } => painted(
            buf,
            pitch,
            ring_pixels(cx as int, cy as int, 3, 0),
            color,
            alpha,
        ),
        DrawOpView::Text { color, .. } => lettered(
            buf,
            pitch,
            glyphs,
            color,
            glyphs.len() as int,
        ),
        DrawOpView::PowerIcon { rect, color, alpha } => painted(
            buf,
            pitch,
            power_pixels(rect),
            color,
            alpha,
        ),
        DrawOpView::Cursor { x, y } => pointed(buf, pitch, x as int, y as int, 9),
    }
}

/// Paints one step.
pub fn paint_op(buf: &mut [u8], pitch: u32, op: &DrawOp, p: &Palette, glyphs: &Vec<Glyph>)
    requires
        op_fits(pitch, op@, *p, glyphs@),
    ensures
        final(buf)@ == after_op(old(buf)@, pitch, op@, *p, glyphs@),
{
    match op {
        DrawOp::Background => paint_background(buf, pitch, p.width, p.height, &p.colors),
        DrawOp::Shadow { rect } => draw_shadow(buf, pitch, *rect),
        DrawOp::Solid { rect, color, alpha } => fill_rect(buf, pitch, *rect, *color, *alpha),
        DrawOp::Border { rect, thickness, color, alpha } => draw_border(
            buf,
            pitch,
            *rect,
            *thickness,
            *color,
            *alpha,
        ),
        DrawOp::AvatarDisc { cx, cy, color, alpha } => draw_circle(
            buf,
            pitch,
            *cx,
            *cy,
            27,
            *color,
            *alpha,
        ),
        DrawOp::AvatarRing { cx, cy, color, alpha } => draw_circle_ring(
            buf,
            pitch,
            *cx,
            *cy,
            30,
            24,
            *color,
            *alpha,
        ),
        DrawOp::SpinnerDot { cx, cy, color, alpha } => draw_circle(
            buf,
            pitch,
            *cx,
            *cy,
            3,
            *color,
            *alpha,
        ),
        DrawOp::Text { color, .. } => draw_text(buf, pitch, glyphs, *color),
        DrawOp::PowerIcon { rect, color, alpha } => draw_power_icon(
            buf,
            pitch,
            *rect,
            *color,
            *alpha,
        ),
        DrawOp::Cursor { x, y } => draw_cursor(buf, pitch, *x, *y),
    }
}

/// The buffer after the first `n` steps of a frame.
pub open spec fn framed_buf(
    buf: Seq<u8>,
    pitch: u32,
    ops: Seq<DrawOpView>,
    p: Palette,
    n: int,
) -> Seq<u8>
    decreases n,
{
    if n <= 0 {
        buf
    } else {
        after_op(
            framed_buf(buf, pitch, ops, p, n - 1),
            pitch,
            ops[n - 1],
            p,
            p.runs@[n - 1]@,
        )
    }
}

/// There are glyphs for each step of a frame, and each step can be painted.
pub open spec fn frame_fits(pitch: u32, ops: Seq<DrawOpView>, p: Palette) -> bool {
    p.runs@.len() == ops.len() && forall|i: int|
        0 <= i < ops.len() ==> op_fits(pitch, #[trigger] ops[i], p, p.runs@[i]@)
}

/// Paints the steps of a frame, from the back to the front.
fn paint_ops(buf: &mut [u8], pitch: u32, ops: &Vec<DrawOp>, p: &Palette)
    requires
        frame_fits(pitch, op_views(ops@), *p),
    ensures
        final(buf)@ == framed_buf(old(buf)@, pitch, op_views(ops@), *p, ops.len() as int),
{
    let mut n: usize = 0;
    while n < ops.len()
        invariant
            n <= ops.len(),
            frame_fits(pitch, op_views(ops@), *p),
            buf@ == framed_buf(old(buf)@, pitch, op_views(ops@), *p, n as int),
        decreases ops.len() - n,
    {
        assert(op_views(ops@)[n as int] == ops@[n as int]@);
        paint_op(buf, pitch, &ops[n], p, &p.runs[n]);
        n += 1;
    }
}

/// Paints a frame into a buffer, from the back to the front. Returns where it
/// can be clicked.
pub fn paint_frame(
    buf: &mut [u8],
    pitch: u32,
    width: i32,
    height: i32,
    state: &FrameState,
    m: &FrameMetrics,
    p: &Palette,
) -> (r: FrameHitTargets)
    requires
        metrics_fit(width as int, height as int, state.login@, *m),
        frame_fits(pitch, frame_of(width as int, height as int, *state, *m), *p),
    ensures
        ({
            let frame = frame_of(width as int, height as int, *state, *m);
            final(buf)@ == framed_buf(old(buf)@, pitch, frame, *p, frame.len() as int)
        }),
        r@ == targets_of(width as int, height as int, *state, *m),
{
    let (ops, targets) = compose_frame(width, height, state, m);
    assert(ops.len() == op_views(ops@).len());
    paint_ops(buf, pitch, &ops, p);
    targets
}

/// Whether a pixel is addressable.
fn corner_ok(pitch: u32, x: i64, y: i64) -> (r: bool)
    requires
        x <= 0x7FFF_FFFF,
        y <= 0x7FFF_FFFF,
    ensures
        r == addressable(pitch, x as int, y as int),
{
    if x < 0 || y < 0 {
        return true;
    }
    proof {
        assert(0 <= y * pitch <= 0x7FFF_FFFF * 0xFFFF_FFFF) by (nonlinear_arith)
            requires
                0 <= y <= 0x7FFF_FFFF,
                0 <= pitch <= 0xFFFF_FFFF,
        ;
    }
    y as u64 * pitch as u64 + x as u64 * 4 <= 0xFFFF_FFFF
}

fn rect_ok(pitch: u32, rect: Rect, alpha: u8) -> (r: bool)
    ensures
        r == fits(pitch, rect, alpha),
{
    if rect.w <= 0 || rect.h <= 0 {
        return true;
    }
    let x: i64 = rect.x as i64 + rect.w as i64;
    let y: i64 = rect.y as i64 + rect.h as i64;
    x <= 0x7FFF_FFFF && y <= 0x7FFF_FFFF && (alpha == 0 || corner_ok(pitch, x - 1, y - 1))
}

fn ring_ok(pitch: u32, cx: i32, cy: i32, outer: i32, inner: i32, alpha: u8) -> (r: bool)
    ensures
        r == (outer < 0 || ring_fits(
            pitch,
            cx as int,
            cy as int,
            outer as int,
            inner as int,
            alpha,
        )),
{
    if outer < 0 {
        return true;
    }
    let x: i64 = cx as i64;
    let y: i64 = cy as i64;
    let far: i64 = outer as i64;
    if outer > 32767 || inner > 46340 || x - far < -0x8000_0000 || y - far < -0x8000_0000 || x + far
        > 0x7FFF_FFFF || y + far > 0x7FFF_FFFF {
        return false;
    }
    if alpha == 0 {
        return true;
    }
    let ghost ring = crate::font::in_ring(cx as int, cy as int, outer as int, inner as int);
    let list = crate::font::ring_list(cx, cy, outer, inner);
    let mut i: usize = 0;
    while i < list.len()
        invariant
            i <= list.len(),
            alpha != 0,
            ring == crate::font::in_ring(cx as int, cy as int, outer as int, inner as int),
            forall|i: int|
                0 <= i < list.len() ==> {
                    let (x, y) = #[trigger] list[i];
                    &&& cx - outer <= x <= cx + outer
                    &&& cy - outer <= y <= cy + outer
                    &&& ring(x as int, y as int)
                },
            forall|k: int|
                0 <= k < i ==> addressable(
                    pitch,
                    (#[trigger] list[k]).0 as int,
                    list[k].1 as int,
                ),
        decreases list.len() - i,
    {
        if !corner_ok(pitch, list[i].0 as i64, list[i].1 as i64) {
            assert(ring(list[i as int].0 as int, list[i as int].1 as int));
            return false;
        }
        i += 1;
    }
    proof {
        let all = ring_pixels(cx as int, cy as int, outer as int, inner as int);
        assert forall|x: int, y: int|
            cx - outer <= x <= cx + outer && cy - outer <= y <= cy + outer && #[trigger] ring(
                x,
                y,
            ) implies addressable(pitch, x, y) by {
            crate::font::law_scan_members(
                cx - outer,
                cx + outer + 1,
                cy - outer,
                cy + outer + 1,
                ring,
                (x, y),
            );
            assert(all.contains((x, y)));
            let k = choose|k: int| 0 <= k < all.len() && all[k] == (x, y);
            assert(points(list@)[k] == (list@[k].0 as int, list@[k].1 as int));
            assert(addressable(pitch, list[k].0 as int, list[k].1 as int));
        }
    }
    true
}

fn line_ok(pitch: u32, x0: i32, y0: i32, x1: i32, y1: i32, size: i32, alpha: u8) -> (r: bool)
    ensures
        r == line_fits(
            pitch,
            x0 as int,
            y0 as int,
            x1 as int,
            y1 as int,
            size as int,
            alpha,
        ),
{
    if size <= 0 {
        return true;
    }
    let ghost (a, b, c, d) = (x0 as int, y0 as int, x1 as int, y1 as int);
    let half: i64 = (size / 2) as i64;
    let list = crate::font::line_points(x0, y0, x1, y1);
    let mut n: usize = 0;
    while n < list.len()
        invariant
            n <= list.len(),
            a == x0 && b == y0 && c == x1 && d == y1,
            size > 0,
            half == size as int / 2,
            list.len() == crate::font::line_steps(a, b, c, d) + 1,
            forall|n: int|
                0 <= n < list.len() ==> ((#[trigger] list[n]).0 as int, list[n].1 as int)
                    == crate::font::line_point(a, b, c, d, n),
            forall|k: int|
                0 <= k < n ==> crate::font::brush_fits(
                    pitch,
                    #[trigger] crate::font::line_point(a, b, c, d, k),
                    size as int,
                    alpha,
                ),
        decreases list.len() - n,
    {
        let x: i64 = list[n].0 as i64 - half;
        let y: i64 = list[n].1 as i64 - half;
        let ghost p = crate::font::line_point(a, b, c, d, n as int);
        assert(p == (list[n as int].0 as int, list[n as int].1 as int));
        if x < -0x8000_0000 || y < -0x8000_0000 || !rect_ok(
            pitch,
            Rect { x: x as i32, y: y as i32, w: size, h: size },
            alpha,
        ) {
            assert(!crate::font::brush_fits(pitch, p, size as int, alpha));
            return false;
        }
        n += 1;
    }
    true
}

fn shadow_ok(pitch: u32, rect: Rect) -> (r: bool)
    ensures
        r == shadow_fits(pitch, rect),
{
    if rect.x < i32::MIN + 8 || rect.y < i32::MIN + 8 || rect.w > i32::MAX - 16 || rect.h
        > i32::MAX - 16 || rect.w < i32::MIN + 16 || rect.h < i32::MIN + 16 {
        return false;
    }
    let mut layer: i32 = 0;
    while layer < 4
        invariant
            0 <= layer <= 4,
            shadow_in_range(rect),
            forall|i: int|
                0 <= i < layer ==> fits(pitch, #[trigger] shadow_layer(rect, i), shadow_alpha(i)),
        decreases 4 - layer,
    {
        let (r, alpha) = layer_of_shadow(rect, layer);
        if !rect_ok(pitch, r, alpha) {
            assert(!fits(pitch, shadow_layer(rect, layer as int), shadow_alpha(layer as int)));
            return false;
        }
        layer += 1;
    }
    true
}

/// Whether the sides of a border are rectangles of 32 bits.
fn border_in_range(rect: Rect, thickness: i32) -> (r: bool)
    ensures
        r == (in_i32(rect.x + rect.w) && in_i32(rect.y + rect.h) && in_i32(
            rect.x + rect.w - border_width(rect, thickness as int),
        ) && in_i32(rect.y + rect.h - border_width(rect, thickness as int))),
{
    let mut t: i64 = if thickness >= 1 {
        thickness as i64
    } else {
        1
    };
    let w: i64 = if rect.w >= 1 {
        rect.w as i64
    } else {
        1
    };
    let h: i64 = if rect.h >= 1 {
        rect.h as i64
    } else {
        1
    };
    if t > w {
        t = w;
    }
    if t > h {
        t = h;
    }
    let right: i64 = rect.x as i64 + rect.w as i64;
    let bottom: i64 = rect.y as i64 + rect.h as i64;
    right <= 0x7FFF_FFFF && bottom <= 0x7FFF_FFFF && right - t >= -0x8000_0000 && bottom - t
        >= -0x8000_0000
}

fn border_ok(pitch: u32, rect: Rect, thickness: i32, alpha: u8) -> (r: bool)
    ensures
        r == border_fits(pitch, rect, thickness as int, alpha),
{
    if !border_in_range(rect, thickness) {
        return false;
    }
    let sides = sides_of_border(rect, thickness);
    let mut i: usize = 0;
    while i < sides.len()
        invariant
            i <= sides.len(),
            sides@ == border_sides(rect, thickness as int),
            forall|k: int|
                0 <= k < i ==> fits(
                    pitch,
                    #[trigger] border_sides(rect, thickness as int)[k],
                    alpha,
                ),
        decreases sides.len() - i,
    {
        if !rect_ok(pitch, sides[i], alpha) {
            assert(!fits(pitch, border_sides(rect, thickness as int)[i as int], alpha));
            return false;
        }
        i += 1;
    }
    true
}

fn power_ok(pitch: u32, rect: Rect, alpha: u8) -> (r: bool)
    ensures
        r == power_fits(pitch, rect, alpha),
{
    let side: i32 = if rect.w <= rect.h {
        rect.w
    } else {
        rect.h
    };
    let cx: i64 = rect.x as i64 + half(rect.w) as i64;
    let cy: i64 = rect.y as i64 + half(rect.h) as i64 - 1;
    let outer: i64 = half(side) as i64 - 4;
    let inner: i64 = outer - 4;
    if cx > 0x7FFF_FFFF || cx < -0x8000_0000 || cy + 1 > 0x7FFF_FFFF || cy < -0x8000_0000 {
        return false;
    }
    if cy - outer < -0x8000_0000 || cy - outer > 0x7FFF_FFFF || cy - inner + 1 > 0x7FFF_FFFF
        || cy - inner + 1 < -0x8000_0000 {
        return false;
    }
    if cy - outer + 2 > 0x7FFF_FFFF {
        return false;
    }
    ring_ok(pitch, cx as i32, cy as i32, outer as i32, inner as i32, alpha) && line_ok(
        pitch,
        cx as i32,
        (cy - outer + 2) as i32,
        cx as i32,
        (cy - inner + 1) as i32,
        3,
        alpha,
    )
}

fn glyph_ok(pitch: u32, glyph: &Glyph) -> (r: bool)
    ensures
        r == glyph_fits(pitch, *glyph),
{
    proof {
        let (w, h) = (glyph.width as int, glyph.height as int);
        assert(0 <= w * h <= 0xFFFF_FFFF_FFFF_FFFF * 0xFFFF_FFFF_FFFF_FFFF) by (nonlinear_arith)
            requires
                0 <= w <= 0xFFFF_FFFF_FFFF_FFFF,
                0 <= h <= 0xFFFF_FFFF_FFFF_FFFF,
        ;
        assert(w * h > 0 ==> w > 0) by (nonlinear_arith)
            requires
                w >= 0,
                h >= 0,
        ;
    }
    let area: u128 = (glyph.width as u64 as u128) * (glyph.height as u64 as u128);
    if glyph.coverage.len() as u64 as u128 != area {
        return false;
    }
    if glyph.x as i128 + glyph.width as u64 as i128 > 0x7FFF_FFFF || glyph.y as i128
        + glyph.height as u64 as i128 > 0x7FFF_FFFF {
        return false;
    }
    let mut k: usize = 0;
    let mut row: usize = 0;
    let mut col: usize = 0;
    while k < glyph.coverage.len()
        invariant
            glyph.coverage@.len() == glyph.width * glyph.height,
            glyph.x + glyph.width <= i32::MAX,
            glyph.y + glyph.height <= i32::MAX,
            k <= glyph.coverage@.len(),
            k == row * glyph.width + col,
            col <= glyph.width,
            k < glyph.coverage@.len() ==> col < glyph.width,
            forall|j: int|
                0 <= j < k && #[trigger] glyph.coverage@[j] != 0 ==> addressable(
                    pitch,
                    glyph.x + j % glyph.width as int,
                    glyph.y + j / glyph.width as int,
                ),
        decreases glyph.coverage@.len() - k,
    {
        proof {
            vstd::arithmetic::div_mod::lemma_fundamental_div_mod_converse(
                k as int,
                glyph.width as int,
                row as int,
                col as int,
            );
            assert(row < glyph.height) by (nonlinear_arith)
                requires
                    k == row * glyph.width + col,
                    k < glyph.width * glyph.height,
                    0 <= col,
                    glyph.width > 0,
            ;
        }
        let x: i64 = glyph.x as i64 + col as i64;
        let y: i64 = glyph.y as i64 + row as i64;
        if glyph.coverage[k] != 0 && !corner_ok(pitch, x, y) {
            assert(glyph.coverage@[k as int] != 0);
            return false;
        }
        k += 1;
        col += 1;
        if col == glyph.width {
            proof {
                assert((row + 1) * glyph.width == row * glyph.width + glyph.width)
                    by (nonlinear_arith);
            }
            col = 0;
            row += 1;
        }
    }
    true
}

fn cursor_ok(pitch: u32, x: i32, y: i32) -> (r: bool)
    ensures
        r == cursor_fits(pitch, x as int, y as int),
{
    if x < i32::MIN + 1 || x > i32::MAX - 1 || y < i32::MIN + 1 || y > i32::MAX - 1 {
        return false;
    }
    let corners = cursor_polygon();
    let arrow = polygon_list(&corners);
    let shifts = shifts_of_cursor();
    let ghost all = polygon_pixels(cursor_corners());
    let mut n: usize = 0;
    assert(shifts.len() == points(shifts@).len());
    assert(arrow.len() == points(arrow@).len());
    while n < shifts.len()
        invariant
            n <= shifts.len(),
            shifts.len() == 9,
            points(shifts@) == cursor_shifts(),
            all == polygon_pixels(cursor_corners()),
            points(arrow@) == all,
            arrow.len() == all.len(),
            i32::MIN + 1 <= x <= i32::MAX - 1,
            i32::MIN + 1 <= y <= i32::MAX - 1,
            forall|i: int, m: int|
                0 <= i < all.len() && 0 <= m < n ==> dot_fits(
                    pitch,
                    x + (#[trigger] cursor_shifts()[m]).0 + (#[trigger] all[i]).0,
                    y + cursor_shifts()[m].1 + all[i].1,
                ),
        decreases shifts.len() - n,
    {
        assert(points(shifts@)[n as int] == (shifts@[n as int].0 as int, shifts@[n as int].1 as int));
        let dx: i64 = shifts[n].0 as i64;
        let dy: i64 = shifts[n].1 as i64;
        let mut i: usize = 0;
        while i < arrow.len()
            invariant
                n < 9,
                i <= arrow.len(),
                all == polygon_pixels(cursor_corners()),
                points(arrow@) == all,
                arrow.len() == all.len(),
                cursor_shifts()[n as int] == (dx as int, dy as int),
                -1 <= dx <= 1,
                -1 <= dy <= 1,
                forall|k: int|
                    0 <= k < i ==> dot_fits(
                        pitch,
                        x + dx + (#[trigger] all[k]).0,
                        y + dy + all[k].1,
                    ),
            decreases arrow.len() - i,
        {
            assert(all[i as int] == (arrow@[i as int].0 as int, arrow@[i as int].1 as int));
            let at_x: i64 = x as i64 + dx + arrow[i].0 as i64;
            let at_y: i64 = y as i64 + dy + arrow[i].1 as i64;
            if at_x < -0x8000_0000 || at_x > 0x7FFF_FFFF || at_y < -0x8000_0000 || at_y
                > 0x7FFF_FFFF || !corner_ok(pitch, at_x, at_y) {
                assert(!dot_fits(
                    pitch,
                    x + cursor_shifts()[n as int].0 + all[i as int].0,
                    y + cursor_shifts()[n as int].1 + all[i as int].1,
                ));
                return false;
            }
            i += 1;
        }
        n += 1;
    }
    true
}

/// Whether a step can be painted.
pub fn can_paint(pitch: u32, op: &DrawOp, p: &Palette, glyphs: &Vec<Glyph>) -> (r: bool)
    ensures
        r == op_fits(pitch, op@, *p, glyphs@),
{
    match op {
        DrawOp::Background => {
            if p.width < 0 || p.height < 0 {
                return false;
            }
            proof {
                assert(0 <= p.width * p.height <= 0x7FFF_FFFF * 0x7FFF_FFFF) by (nonlinear_arith)
                    requires
                        0 <= p.width <= 0x7FFF_FFFF,
                        0 <= p.height <= 0x7FFF_FFFF,
                ;
            }
            p.colors.len() as u64 == p.width as u64 * p.height as u64 && (p.width == 0 || p.height
                == 0 || corner_ok(pitch, p.width as i64 - 1, p.height as i64 - 1))
        },
        DrawOp::Shadow { rect } => shadow_ok(pitch, *rect),
        DrawOp::Solid { rect, alpha, .. } => rect_ok(pitch, *rect, *alpha),
        DrawOp::Border { rect, thickness, alpha, .. } => border_ok(
            pitch,
            *rect,
            *thickness,
            *alpha,
        ),
        DrawOp::AvatarDisc { cx, cy, alpha, .. } => ring_ok(pitch, *cx, *cy, 27, 0, *alpha),
        DrawOp::AvatarRing { cx, cy, alpha, .. } => ring_ok(pitch, *cx, *cy, 30, 24, *alpha),
        DrawOp::SpinnerDot { cx, cy, alpha, .. } => ring_ok(pitch, *cx, *cy, 3, 0, *alpha),
        DrawOp::Text { .. } => {
            let mut i: usize = 0;
            while i < glyphs.len()
                invariant
                    op@ is Text,
                    i <= glyphs.len(),
                    forall|k: int| 0 <= k < i ==> glyph_fits(pitch, #[trigger] glyphs[k]),
                decreases glyphs.len() - i,
            {
                if !glyph_ok(pitch, &glyphs[i]) {
                    assert(!glyph_fits(pitch, glyphs@[i as int]));
                    return false;
                }
                i += 1;
            }
            true
        },
        DrawOp::PowerIcon { rect, alpha, .. } => power_ok(pitch, *rect, *alpha),
        DrawOp::Cursor { x, y } => cursor_ok(pitch, *x, *y),
    }
}

// ---------------------------------------------------------------------------
// Drawing on a GPU
// ---------------------------------------------------------------------------

/// One draw call: a rectangle of one colour, a tinted icon of the atlas, or a
/// line of tinted glyphs.
#[derive(Debug)]
pub enum GpuOp {
    Solid { rect: Rect, color: Color, alpha: u8 },
    Icon { id: IconId, rect: Rect, color: Color, alpha: u8 },
    Text { font: FontId, size: TextSize, x: i32, baseline: i32, color: Color, text: String },
}

/// The value of a [`GpuOp`].
pub ghost enum GpuOpView {
    Solid { rect: Rect, color: Color, alpha: u8 },
    Icon { id: IconId, rect: Rect, color: Color, alpha: u8 },
    Text { font: FontId, size: TextSize, x: i32, baseline: i32, color: Color, text: Seq<char> },
}

impl View for GpuOp {
    type V = GpuOpView;

    open spec fn view(&self) -> GpuOpView {
        match *self {
            GpuOp::Solid { rect, color, alpha } => GpuOpView::Solid { rect, color, alpha },
            GpuOp::Icon { id, rect, color, alpha } => GpuOpView::Icon { id, rect, color, alpha },
            GpuOp::Text { font, size, x, baseline, color, text } => GpuOpView::Text {
                font,
                size,
                x,
                baseline,
                color,
                text: text@,
            },
        }
    }
}

pub open spec fn gpu_views(list: Seq<GpuOp>) -> Seq<GpuOpView> {
    Seq::new(list.len(), |i: int| list[i]@)
}

/// A rectangle of one colour; nothing where nothing would be seen of it.
pub open spec fn gpu_solid_of(rect: Rect, color: Color, alpha: u8) -> Seq<GpuOpView> {
    if rect.w <= 0 || rect.h <= 0 || alpha == 0 {
        Seq::empty()
    } else {
        seq![GpuOpView::Solid { rect, color, alpha }]
    }
}

pub open spec fn gpu_solids_of(rects: Seq<Rect>, color: Color, alpha: u8) -> Seq<GpuOpView>
    decreases rects.len(),
{
    if rects.len() == 0 {
        Seq::empty()
    } else {
        gpu_solids_of(rects.drop_last(), color, alpha) + gpu_solid_of(rects.last(), color, alpha)
    }
}

/// An icon; nothing where it is transparent.
pub open spec fn gpu_icon_of(id: IconId, rect: Rect, color: Color, alpha: u8) -> Seq<GpuOpView> {
    if alpha == 0 {
        Seq::empty()
    } else {
        seq![GpuOpView::Icon { id, rect, color, alpha }]
    }
}

pub open spec fn gpu_shadow_of(rect: Rect, n: int) -> Seq<GpuOpView>
    decreases n,
{
    if n <= 0 {
        Seq::empty()
    } else {
        gpu_shadow_of(rect, n - 1) + gpu_solid_of(
            shadow_layer(rect, n - 1),
            (0, 0, 0),
            shadow_alpha(n - 1),
        )
    }
}

/// The square around a centre.
pub open spec fn square_around(cx: int, cy: int, radius: int) -> Rect {
    Rect {
        x: (cx - radius) as i32,
        y: (cy - radius) as i32,
        w: (2 * radius + 1) as i32,
        h: (2 * radius + 1) as i32,
    }
}

/// The square around a centre fits the coordinates.
pub open spec fn centre_in_range(cx: int, cy: int) -> bool {
    in_i32(cx - 30) && in_i32(cy - 30)
}

/// A step can be put as draw calls.
pub open spec fn gpu_in_range(op: DrawOpView) -> bool {
    match op {
        DrawOpView::Shadow { rect } => shadow_in_range(rect),
        DrawOpView::Border { rect, thickness, .. } => {
            let t = border_width(rect, thickness as int);
            &&& in_i32(rect.x + rect.w)
            &&& in_i32(rect.y + rect.h)
            &&& in_i32(rect.x + rect.w - t)
            &&& in_i32(rect.y + rect.h - t)
        },
        DrawOpView::AvatarDisc { cx, cy, .. } => centre_in_range(cx as int, cy as int),
        DrawOpView::AvatarRing { cx, cy, .. } => centre_in_range(cx as int, cy as int),
        DrawOpView::SpinnerDot { cx, cy, .. } => centre_in_range(cx as int, cy as int),
        DrawOpView::Cursor { x, y } => in_i32(x - 1) && in_i32(y - 1),
        _ => true,
    }
}

/// Whether a step can be put as draw calls.
pub fn can_draw(op: &DrawOp) -> (r: bool)
    ensures
        r == gpu_in_range(op@),
{
    match op {
        DrawOp::Shadow { rect } => rect.x >= i32::MIN + 8 && rect.y >= i32::MIN + 8 && rect.w
            <= i32::MAX - 16 && rect.h <= i32::MAX - 16 && rect.w >= i32::MIN + 16 && rect.h
            >= i32::MIN + 16,
        DrawOp::Border { rect, thickness, .. } => border_in_range(*rect, *thickness),
        DrawOp::AvatarDisc { cx, cy, .. } => *cx >= i32::MIN + 30 && *cy >= i32::MIN + 30,
        DrawOp::AvatarRing { cx, cy, .. } => *cx >= i32::MIN + 30 && *cy >= i32::MIN + 30,
        DrawOp::SpinnerDot { cx, cy, .. } => *cx >= i32::MIN + 30 && *cy >= i32::MIN + 30,
        DrawOp::Cursor { x, y } => *x > i32::MIN && *y > i32::MIN,
        _ => true,
    }
}

/// The draw calls of a step. The background is a shader of its own.
pub open spec fn gpu_ops_of(op: DrawOpView) -> Seq<GpuOpView> {
    match op {
        DrawOpView::Background => Seq::empty(),
        DrawOpView::Shadow { rect } => gpu_shadow_of(rect, 4),
        DrawOpView::Solid { rect, color, alpha } => gpu_solid_of(rect, color, alpha),
        DrawOpView::Border { rect, thickness, color, alpha } => gpu_solids_of(
            border_sides(rect, thickness as int),
            color,
            alpha,
        ),
        DrawOpView::AvatarDisc { cx, cy, color, alpha } => gpu_icon_of(
            IconId::AvatarDisc,
            square_around(cx as int, cy as int, 27),
            color,
            alpha,
        ),
        DrawOpView::AvatarRing { cx, cy, color, alpha } => gpu_icon_of(
            IconId::AvatarRing,
            square_around(cx as int, cy as int, 30),
            color,
            alpha,
        ),
        DrawOpView::SpinnerDot { cx, cy, color, alpha } => gpu_icon_of(
            IconId::SpinnerDot,
            square_around(cx as int, cy as int, 3),
            color,
            alpha,
        ),
        DrawOpView::Text { font, size, x, baseline, color, text } => seq![
            GpuOpView::Text { font, size, x, baseline, color, text },
        ],
        DrawOpView::PowerIcon { rect, color, alpha } => gpu_icon_of(
            IconId::PowerIcon,
            rect,
            color,
            alpha,
        ),
        DrawOpView::Cursor { x, y } => {
            let rect = Rect { x: (x - 1) as i32, y: (y - 1) as i32, w: 13, h: 22 };
            seq![
                GpuOpView::Icon {
                    id: IconId::CursorOutline,
                    rect,
                    color: (12, 14, 18),
                    alpha: 235,
                },
                GpuOpView::Icon {
                    id: IconId::CursorBody,
                    rect,
                    color: (255, 255, 255),
                    alpha: 255,
                },
            ]
        },
    }
}

/// The draw calls of the first `n` steps.
pub open spec fn gpu_plan_of(ops: Seq<DrawOpView>, n: int) -> Seq<GpuOpView>
    decreases n,
{
    if n <= 0 {
        Seq::empty()
    } else {
        gpu_plan_of(ops, n - 1) + gpu_ops_of(ops[n - 1])
    }
}

fn gpu_solid(out: &mut Vec<GpuOp>, rect: Rect, color: Color, alpha: u8)
    ensures
        gpu_views(final(out)@) == gpu_views(old(out)@) + gpu_solid_of(rect, color, alpha),
{
    let ghost before = out@;
    if rect.w > 0 && rect.h > 0 && alpha != 0 {
        out.push(GpuOp::Solid { rect, color, alpha });
    }
    assert(gpu_views(out@) =~= gpu_views(before) + gpu_solid_of(rect, color, alpha));
}

fn gpu_icon(out: &mut Vec<GpuOp>, id: IconId, rect: Rect, color: Color, alpha: u8)
    ensures
        gpu_views(final(out)@) == gpu_views(old(out)@) + gpu_icon_of(id, rect, color, alpha),
{
    let ghost before = out@;
    if alpha != 0 {
        out.push(GpuOp::Icon { id, rect, color, alpha });
    }
    assert(gpu_views(out@) =~= gpu_views(before) + gpu_icon_of(id, rect, color, alpha));
}

fn gpu_border(out: &mut Vec<GpuOp>, rect: Rect, thickness: i32, color: Color, alpha: u8)
    requires
        gpu_in_range(DrawOpView::Border { rect, thickness, color, alpha }),
    ensures
        gpu_views(final(out)@) == gpu_views(old(out)@) + gpu_solids_of(
            border_sides(rect, thickness as int),
            color,
            alpha,
        ),
{
    let sides = sides_of_border(rect, thickness);
    let ghost before = gpu_views(out@);
    let mut i: usize = 0;
    assert(before + gpu_solids_of(sides@.take(0), color, alpha) =~= before);
    while i < sides.len()
        invariant
            i <= sides.len(),
            gpu_views(out@) == before + gpu_solids_of(sides@.take(i as int), color, alpha),
        decreases sides.len() - i,
    {
        proof {
            assert(sides@.take(i + 1).drop_last() =~= sides@.take(i as int));
            let front = gpu_solids_of(sides@.take(i as int), color, alpha);
            let last = gpu_solid_of(sides@[i as int], color, alpha);
            assert(before + (front + last) =~= before + front + last);
        }
        gpu_solid(out, sides[i], color, alpha);
        i += 1;
    }
    assert(sides@.take(i as int) =~= sides@);
}

fn gpu_shadow(out: &mut Vec<GpuOp>, rect: Rect)
    requires
        shadow_in_range(rect),
    ensures
        gpu_views(final(out)@) == gpu_views(old(out)@) + gpu_shadow_of(rect, 4),
{
    let ghost before = gpu_views(out@);
    let mut layer: i32 = 0;
    assert(before + gpu_shadow_of(rect, 0) =~= before);
    while layer < 4
        invariant
            0 <= layer <= 4,
            shadow_in_range(rect),
            gpu_views(out@) == before + gpu_shadow_of(rect, layer as int),
        decreases 4 - layer,
    {
        let (r, alpha) = layer_of_shadow(rect, layer);
        proof {
            let front = gpu_shadow_of(rect, layer as int);
            let last = gpu_solid_of(r, (0, 0, 0), alpha);
            assert(before + (front + last) =~= before + front + last);
        }
        gpu_solid(out, r, (0, 0, 0), alpha);
        layer += 1;
    }
}

fn square(cx: i32, cy: i32, radius: i32) -> (r: Rect)
    requires
        0 <= radius <= 30,
        centre_in_range(cx as int, cy as int),
    ensures
        r == square_around(cx as int, cy as int, radius as int),
{
    Rect { x: cx - radius, y: cy - radius, w: 2 * radius + 1, h: 2 * radius + 1 }
}

fn gpu_op(out: &mut Vec<GpuOp>, op: &DrawOp)
    requires
        gpu_in_range(op@),
    ensures
        gpu_views(final(out)@) == gpu_views(old(out)@) + gpu_ops_of(op@),
{
    let ghost before = out@;
    match op {
        DrawOp::Background => {
            assert(gpu_views(out@) =~= gpu_views(before) + gpu_ops_of(op@));
        },
        DrawOp::Shadow { rect } => gpu_shadow(out, *rect),
        DrawOp::Solid { rect, color, alpha } => gpu_solid(out, *rect, *color, *alpha),
        DrawOp::Border { rect, thickness, color, alpha } => gpu_border(
            out,
            *rect,
            *thickness,
            *color,
            *alpha,
        ),
        DrawOp::AvatarDisc { cx, cy, color, alpha } => gpu_icon(
            out,
            IconId::AvatarDisc,
            square(*cx, *cy, 27),
            *color,
            *alpha,
        ),
        DrawOp::AvatarRing { cx, cy, color, alpha } => gpu_icon(
            out,
            IconId::AvatarRing,
            square(*cx, *cy, 30),
            *color,
            *alpha,
        ),
        DrawOp::SpinnerDot { cx, cy, color, alpha } => gpu_icon(
            out,
            IconId::SpinnerDot,
            square(*cx, *cy, 3),
            *color,
            *alpha,
        ),
        DrawOp::Text { font, size, x, baseline, color, text } => {
            out.push(
                GpuOp::Text {
                    font: *font,
                    size: *size,
                    x: *x,
                    baseline: *baseline,
                    color: *color,
                    text: text.clone(),
                },
            );
            assert(gpu_views(out@) =~= gpu_views(before) + gpu_ops_of(op@));
        },
        DrawOp::PowerIcon { rect, color, alpha } => gpu_icon(
            out,
            IconId::PowerIcon,
            *rect,
            *color,
            *alpha,
        ),
        DrawOp::Cursor { x, y } => {
            let rect = Rect { x: *x - 1, y: *y - 1, w: 13, h: 22 };
            out.push(
                GpuOp::Icon { id: IconId::CursorOutline, rect, color: (12, 14, 18), alpha: 235 },
            );
            out.push(
                GpuOp::Icon { id: IconId::CursorBody, rect, color: (255, 255, 255), alpha: 255 },
            );
            assert(gpu_views(out@) =~= gpu_views(before) + gpu_ops_of(op@));
        },
    }
}

/// The draw calls of the steps of a frame, from the back to the front.
fn draw_calls(ops: &Vec<DrawOp>) -> (r: Vec<GpuOp>)
    requires
        all_in_range(op_views(ops@)),
    ensures
        gpu_views(r@) == gpu_plan_of(op_views(ops@), ops.len() as int),
{
    let mut out: Vec<GpuOp> = Vec::new();
    let mut n: usize = 0;
    assert(gpu_views(out@) =~= gpu_plan_of(op_views(ops@), 0));
    while n < ops.len()
        invariant
            n <= ops.len(),
            all_in_range(op_views(ops@)),
            gpu_views(out@) == gpu_plan_of(op_views(ops@), n as int),
        decreases ops.len() - n,
    {
        assert(op_views(ops@)[n as int] == ops@[n as int]@);
        gpu_op(&mut out, &ops[n]);
        n += 1;
    }
    out
}

/// The draw calls of a frame, from the back to the front, and where it can be
/// clicked: the same frame that [`paint_frame`] paints, with icons and glyphs out
/// of the atlas.
pub fn paint_frame_gpu(width: i32, height: i32, state: &FrameState, m: &FrameMetrics) -> (r: (
    Vec<GpuOp>,
    FrameHitTargets,
))
    requires
        metrics_fit(width as int, height as int, state.login@, *m),
        all_in_range(frame_of(width as int, height as int, *state, *m)),
    ensures
        ({
            let frame = frame_of(width as int, height as int, *state, *m);
            gpu_views(r.0@) == gpu_plan_of(frame, frame.len() as int)
        }),
        r.1@ == targets_of(width as int, height as int, *state, *m),
{
    let (ops, targets) = compose_frame(width, height, state, m);
    assert(ops.len() == op_views(ops@).len());
    (draw_calls(&ops), targets)
}

pub open spec fn all_in_range(ops: Seq<DrawOpView>) -> bool {
    forall|i: int| 0 <= i < ops.len() ==> gpu_in_range(#[trigger] ops[i])
}

proof fn lemma_range_concat(a: Seq<DrawOpView>, b: Seq<DrawOpView>)
    requires
        all_in_range(a),
        all_in_range(b),
    ensures
        all_in_range(a + b),
{
}

proof fn lemma_items_in_range(items: Seq<(PowerAction, Rect)>, pointer: Option<(i32, i32)>)
    requires
        forall|i: int|
            0 <= i < items.len() ==> in_i32((#[trigger] items[i]).1.x + items[i].1.w) && in_i32(
                items[i].1.y + items[i].1.h,
            ) && items[i].1.w > 0 && items[i].1.h > 0,
    ensures
        all_in_range(items_ops(items, pointer)),
    decreases items.len(),
{
    if items.len() > 0 {
        let front = items.drop_last();
        assert forall|i: int| 0 <= i < front.len() implies in_i32(
            (#[trigger] front[i]).1.x + front[i].1.w,
        ) && in_i32(front[i].1.y + front[i].1.h) && front[i].1.w > 0 && front[i].1.h > 0 by {
            assert(front[i] == items[i]);
        }
        lemma_items_in_range(front, pointer);
        assert(items[items.len() - 1] == items.last());
        assert(all_in_range(item_ops(items.last(), pointer)));
        lemma_range_concat(items_ops(front, pointer), item_ops(items.last(), pointer));
    }
}

/// Every frame can be put as draw calls, as long as the pointer and the dots
/// of the spinner are not at the very ends of the coordinates.
pub proof fn law_frame_is_drawable(
    width: int,
    height: int,
    state: LoginView,
    pointer: Option<(i32, i32)>,
    menu_open: bool,
    caret_on: bool,
    paint_background: bool,
    m: FrameMetrics,
)
    requires
        metrics_fit(width, height, state, m),
        pointer is Some ==> in_i32(pointer->Some_0.0 - 1) && in_i32(pointer->Some_0.1 - 1),
        forall|i: int|
            0 <= i < m.spinner@.len() ==> centre_in_range(
                (#[trigger] m.spinner@[i]).0 as int,
                m.spinner@[i].1 as int,
            ),
    ensures
        all_in_range(
            frame_ops(
                width,
                height,
                state,
                pointer,
                menu_open,
                caret_on,
                paint_background,
                m,
            ),
        ),
{
    let l = layout_of(width, height, m.panel_w as int, m.panel_h as int);
    let back: Seq<DrawOpView> = if paint_background {
        seq![DrawOpView::Background]
    } else {
        Seq::empty()
    };
    let menu = menu_of(l.power_button, height);
    let menu_part = if menu_open {
        menu_ops(menu, pointer)
    } else {
        Seq::empty()
    };
    let cursor = match pointer {
        Some((x, y)) => seq![DrawOpView::Cursor { x, y }],
        None => Seq::empty(),
    };
    let prompts = prompt_ops(l.panel, state, m) + notice_ops(l.panel, state, m);
    assert(all_in_range(prompts));
    assert(all_in_range(panel_ops(l.panel)));
    assert(all_in_range(header_ops(l.panel, state, m)));
    assert(all_in_range(spinner_ops(state, m)));
    assert(all_in_range(field_ops(l.field, state, pointer, caret_on, m)));
    assert(all_in_range(note_ops(l.panel, state, m)));
    assert(all_in_range(button_ops(l.power_button, pointer, menu_open)));
    if menu_open {
        lemma_items_in_range(menu_items(menu), pointer);
        let front = seq![
            DrawOpView::Shadow { rect: menu },
            DrawOpView::Solid { rect: menu, color: (10u8, 15u8, 24u8), alpha: 244 },
            DrawOpView::Border {
                rect: menu,
                thickness: 2,
                color: (116u8, 134u8, 153u8),
                alpha: 108,
            },
        ];
        assert(all_in_range(front));
        lemma_range_concat(front, items_ops(menu_items(menu), pointer));
    }
    let a = back + panel_ops(l.panel);
    let b = a + header_ops(l.panel, state, m);
    let c = b + spinner_ops(state, m);
    let d = c + prompts;
    let e = d + field_ops(l.field, state, pointer, caret_on, m);
    let f = e + note_ops(l.panel, state, m);
    let g = f + button_ops(l.power_button, pointer, menu_open);
    let h = g + menu_part;
    lemma_range_concat(back, panel_ops(l.panel));
    lemma_range_concat(a, header_ops(l.panel, state, m));
    lemma_range_concat(b, spinner_ops(state, m));
    lemma_range_concat(c, prompts);
    lemma_range_concat(d, field_ops(l.field, state, pointer, caret_on, m));
    lemma_range_concat(e, note_ops(l.panel, state, m));
    lemma_range_concat(f, button_ops(l.power_button, pointer, menu_open));
    lemma_range_concat(g, menu_part);
    lemma_range_concat(h, cursor);
}

/// The field shows what was typed, as it was typed, but for a secret, of which
/// it shows one dot for each character.
pub proof fn law_field_shows_what_is_typed(
    username: Seq<char>,
    error: Option<Seq<char>>,
    style: AuthMessageStyle,
    message: Seq<char>,
    input: Seq<char>,
    notices: Seq<(AuthMessageStyle, Seq<char>)>,
    i: int,
)
    ensures
        field_text_of(LoginView::EnterUsername { username, error }) == username,
        ({
            let state = LoginView::Prompt { username, style, message, input, notices };
            &&& style != AuthMessageStyle::Secret ==> field_text_of(state) == input
            &&& style == AuthMessageStyle::Secret ==> field_text_of(state).len() == input.len()
            &&& style == AuthMessageStyle::Secret && 0 <= i < input.len() ==> field_text_of(
                state,
            )[i] == '\u{2022}'
            &&& placeholder_of(state) == if style == AuthMessageStyle::Secret {
                "Password"@
            } else {
                "Response"@
            }
            &&& prompt_line_of(state) == message
        }),
        error is Some ==> prompt_line_of(LoginView::EnterUsername { username, error })
            == error->Some_0 && note_of(LoginView::EnterUsername { username, error }).0
            == error->Some_0,
        field_text_of(LoginView::Done).len() == 0,
{
}

/// The line below the headline ends in the name of the user, wherever a login
/// has one.
pub proof fn law_subtitle_names_the_user(state: LoginView)
    requires
        !(state is Done),
        crate::login::user_of(state) is Some,
        crate::login::user_of(state)->Some_0.len() > 0,
    ensures
        ({
            let user = crate::login::user_of(state)->Some_0;
            let text = subtitle_of(state);
            text.len() >= user.len() && text.skip(text.len() - user.len()) == user
        }),
{
    let user = crate::login::user_of(state)->Some_0;
    let text = subtitle_of(state);
    assert(text.skip(text.len() - user.len()) =~= user);
}

/// A border covers what lies within its thickness of an edge of the rectangle,
/// on the inside, and nothing else.
pub proof fn law_border(rect: Rect, thickness: int, px: int, py: int)
    requires
        rect.w > 0,
        rect.h > 0,
        in_i32(rect.x + rect.w),
        in_i32(rect.y + rect.h),
    ensures
        ({
            let sides = border_sides(rect, thickness);
            let t = border_width(rect, thickness);
            let covered = within(sides[0], px, py) || within(sides[1], px, py) || within(
                sides[2],
                px,
                py,
            ) || within(sides[3], px, py);
            &&& sides.len() == 4
            &&& 1 <= t <= rect.w && t <= rect.h
            &&& 1 <= thickness <= rect.w && thickness <= rect.h ==> t == thickness
            &&& covered <==> within(rect, px, py) && (px < rect.x + t || px >= rect.x + rect.w - t
                || py < rect.y + t || py >= rect.y + rect.h - t)
        }),
{
}

/// The layers of a shadow lie around the rectangle, each within the one before
/// it, and grow fainter towards the inside.
pub proof fn law_shadow(rect: Rect, i: int, px: int, py: int)
    requires
        shadow_in_range(rect),
        0 <= i < 4,
        rect.w >= 0,
        rect.h >= 0,
    ensures
        within(shadow_layer(rect, i), px, py) <==> rect.x - (8 - 2 * i) <= px < rect.x + rect.w + (
        8 - 2 * i) && rect.y - (8 - 2 * i) <= py < rect.y + rect.h + (8 - 2 * i),
        shadow_alpha(i) == 40 - 8 * i,
{
}

/// The items of the menu, from the top, with the words that they are drawn
/// with; the word of an item stands within its rectangle.
pub proof fn law_menu_words(menu: Rect, pointer: Option<(i32, i32)>, i: int)
    requires
        0 <= i < 4,
        0 <= menu.x <= 0x4000_0000,
        -1000 <= menu.y <= 0x4000_0000,
        menu.w == 220,
    ensures
        menu_actions()[0] == PowerAction::Suspend,
        menu_actions()[1] == PowerAction::Hibernate,
        menu_actions()[2] == PowerAction::Restart,
        menu_actions()[3] == PowerAction::PowerOff,
        PowerAction::Suspend.spec_label() == "Suspend"@,
        PowerAction::Hibernate.spec_label() == "Hibernate"@,
        PowerAction::Restart.spec_label() == "Restart"@,
        PowerAction::PowerOff.spec_label() == "Shut down"@,
        ({
            let (action, rect) = menu_items(menu)[i];
            let word = item_ops((action, rect), pointer).last();
            &&& word is Text && word->Text_text == action.spec_label()
            &&& within(rect, word->Text_x as int, word->Text_baseline as int)
        }),
{
    let (action, rect) = menu_items(menu)[i];
    assert(rect == menu_item(menu, i));
}

/// On a screen with room the panel is centred across it.
pub proof fn law_panel_is_centred(width: int, height: int, panel_w: int, panel_h: int)
    requires
        sizes_fit(width, height, panel_w, panel_h),
        width >= panel_w + 64,
    ensures
        ({
            let p = panel_of(width, height, panel_w, panel_h);
            &&& p.w == panel_w && p.h == panel_h
            &&& 0 <= width - (2 * p.x + p.w) <= 1
            &&& height >= panel_h + 52 ==> 0 <= height - (2 * (p.y - 22) + p.h) <= 1
        }),
{
}

/// The pointer is drawn over everything else, where it is, and the menu over
/// everything but the pointer, while it is open.
pub proof fn law_pointer_is_on_top(
    width: int,
    height: int,
    state: LoginView,
    pointer: Option<(i32, i32)>,
    menu_open: bool,
    caret_on: bool,
    paint_background: bool,
    m: FrameMetrics,
)
    ensures
        ({
            let ops = frame_ops(
                width,
                height,
                state,
                pointer,
                menu_open,
                caret_on,
                paint_background,
                m,
            );
            &&& ops.len() > 0
            &&& pointer is Some ==> ops.last() == (DrawOpView::Cursor {
                x: pointer->Some_0.0,
                y: pointer->Some_0.1,
            })
            &&& paint_background ==> ops[0] == DrawOpView::Background
        }),
{
}

/// The graphics card draws each shape where and as the painter does: the same
/// rectangle, colour and weight, and a round shape in the square around its
/// centre.
pub proof fn law_gpu_draws_the_same(
    rect: Rect,
    color: Color,
    alpha: u8,
    cx: i32,
    cy: i32,
    x: i32,
    y: i32,
)
    requires
        rect.w > 0,
        rect.h > 0,
        alpha > 0,
        centre_in_range(cx as int, cy as int),
        in_i32(x - 1),
        in_i32(y - 1),
    ensures
        gpu_ops_of(DrawOpView::Solid { rect, color, alpha }) == seq![
            GpuOpView::Solid { rect, color, alpha },
        ],
        ({
            let disc = gpu_ops_of(DrawOpView::AvatarDisc { cx, cy, color, alpha });
            &&& disc.len() == 1 && disc[0] is Icon && disc[0]->id == IconId::AvatarDisc
            &&& disc[0]->Icon_rect.x + 27 == cx && disc[0]->Icon_rect.y + 27 == cy
            &&& disc[0]->Icon_rect.w == 55 && disc[0]->Icon_rect.h == 55
            &&& disc[0]->Icon_color == color && disc[0]->Icon_alpha == alpha
        }),
        ({
            let ring = gpu_ops_of(DrawOpView::AvatarRing { cx, cy, color, alpha });
            &&& ring.len() == 1 && ring[0] is Icon && ring[0]->id == IconId::AvatarRing
            &&& ring[0]->Icon_rect.x + 30 == cx && ring[0]->Icon_rect.y + 30 == cy
            &&& ring[0]->Icon_color == color && ring[0]->Icon_alpha == alpha
        }),
        ({
            let dot = gpu_ops_of(DrawOpView::SpinnerDot { cx, cy, color, alpha });
            &&& dot.len() == 1 && dot[0] is Icon && dot[0]->id == IconId::SpinnerDot
            &&& dot[0]->Icon_rect.x + 3 == cx && dot[0]->Icon_rect.y + 3 == cy
            &&& dot[0]->Icon_color == color && dot[0]->Icon_alpha == alpha
        }),
        gpu_ops_of(DrawOpView::PowerIcon { rect, color, alpha }) == seq![
            GpuOpView::Icon { id: IconId::PowerIcon, rect, color, alpha },
        ],
        ({
            let arrow = gpu_ops_of(DrawOpView::Cursor { x, y });
            &&& arrow.len() == 2
            &&& arrow[0]->id == IconId::CursorOutline && arrow[1]->id == IconId::CursorBody
            &&& arrow[1]->Icon_rect.x + 1 == x && arrow[1]->Icon_rect.y + 1 == y
            &&& arrow[0]->Icon_rect == arrow[1]->Icon_rect
        }),
{
}

} // verus!
